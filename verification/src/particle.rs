//! A point mass: force accumulation, one explicit-Euler integration step,
//! boundary clamping with a damped bounce, pairwise repulsion and gravity.

use vstd::prelude::*;

use crate::fixed::FP;
use crate::fixed::LIM;
use crate::fixed::Rect;
use crate::fixed::Vec2;
use crate::fixed::absi;
use crate::fixed::add_clip;
use crate::fixed::clip;
use crate::fixed::in_rect;
use crate::fixed::isqrt;
use crate::fixed::muldiv;
use crate::fixed::sqrt_floor;
use crate::fixed::sub_clip;
use crate::fixed::tdiv;
use crate::fixed::wf_rect;
use crate::fixed::wf_vec;

verus! {

/// Fraction of the incoming speed kept (and inverted) on a boundary bounce:
/// heavy damping, `0.01` in fixed point.
pub const BOUNCE_GAIN: i64 = 10;

/// Gravitational constant, `0.01` in fixed point.
pub const GRAVITY_SCALE: i64 = 10;

/// Repulsion: distance below which the interaction is treated as this close.
pub const REPEL_DIST_MIN: i64 = 5000;

/// Repulsion: distance above which the interaction is treated as this far.
pub const REPEL_DIST_MAX: i64 = 10_000_000;

/// Repulsion: beyond this (clamped) distance the interaction vanishes.
pub const REPEL_CUTOFF: i64 = 10_000;

/// A point mass with position, velocity, accumulated acceleration, mass and
/// a remaining lifetime in ticks.
#[derive(Clone, Copy, PartialEq, Eq, Structural, Debug)]
pub struct Particle {
    pub lifetime: i64,
    pub position: Vec2,
    pub velocity: Vec2,
    pub acceleration: Vec2,
    pub mass: i64,
    pub lifetime_initial: i64,
}

/// A particle is well formed when its mass is positive and every quantity
/// lies in the representable band.
pub open spec fn wf_particle(p: Particle) -> bool {
    &&& 0 < p.mass <= LIM as int
    &&& wf_vec(p.position)
    &&& wf_vec(p.velocity)
    &&& wf_vec(p.acceleration)
    &&& -(LIM as int) <= p.lifetime <= LIM as int
    &&& 0 <= p.lifetime_initial <= LIM as int
}

/// Position clamped onto one axis of the bounding rectangle.
pub open spec fn clamp_axis(x: int, lo: int, hi: int) -> int
    recommends
        lo <= hi,
{
    if x < lo {
        lo
    } else if x > hi {
        hi
    } else {
        x
    }
}

/// The velocity component after a bounce: inverted and heavily damped.
pub open spec fn bounce_vel(v: int) -> int {
    clip(tdiv(v * -(BOUNCE_GAIN as int), FP as int))
}

/// The repulsive force a particle `a` exerts on a particle `b`: directed
/// from `a` to `b`, inverse-square in the clamped distance, and zero beyond
/// a finite cutoff or when the two positions coincide.
pub open spec fn spec_repel(a: Particle, b: Particle) -> Vec2 {
    let dx = clip(a.position.x - b.position.x);
    let dy = clip(a.position.y - b.position.y);
    let d = sqrt_floor(dx * dx + dy * dy);
    let dc = if d < REPEL_DIST_MIN {
        REPEL_DIST_MIN as int
    } else if d > REPEL_DIST_MAX {
        REPEL_DIST_MAX as int
    } else {
        d
    };
    if d == 0 || dc > REPEL_CUTOFF {
        Vec2 { x: 0, y: 0 }
    } else {
        let s = clip(tdiv(a.mass * b.mass * FP, dc * dc));
        Vec2 { x: clip(tdiv(-dx * s, 2 * d)) as i64, y: clip(tdiv(-dy * s, 2 * d)) as i64 }
    }
}

impl Particle {
    /// Creates a particle; a missing initial velocity defaults to the fixed
    /// diagonal `(-1, 1)`.
    pub fn new(m: i64, x: i64, y: i64, lifetime: i64, velocity: Option<Vec2>) -> (r: Particle)
        requires
            0 < m <= LIM,
            -LIM <= x <= LIM,
            -LIM <= y <= LIM,
            0 <= lifetime <= LIM,
            velocity matches Some(v) ==> wf_vec(v),
        ensures
            r.mass == m,
            r.position.x == x,
            r.position.y == y,
            r.lifetime == lifetime,
            r.lifetime_initial == lifetime,
            r.acceleration.x == 0,
            r.acceleration.y == 0,
            velocity matches Some(v) ==> r.velocity == v,
            velocity is None ==> r.velocity.x == -FP && r.velocity.y == FP,
            wf_particle(r),
    {
        let vel: Vec2 = match velocity {
            Some(v) => v,
            None => Vec2 { x: -FP, y: FP },
        };
        Particle {
            lifetime,
            position: Vec2 { x, y },
            velocity: vel,
            acceleration: Vec2 { x: 0, y: 0 },
            mass: m,
            lifetime_initial: lifetime,
        }
    }

    /// Validated construction: rejects a non-positive mass and any quantity
    /// outside the representable band, instead of letting an invalid
    /// particle into the simulation.
    pub fn try_new(m: i64, x: i64, y: i64, lifetime: i64, velocity: Option<Vec2>) -> (r: Option<
        Particle,
    >)
        ensures
            r is Some <==> {
                &&& 0 < m <= LIM
                &&& -LIM <= x <= LIM
                &&& -LIM <= y <= LIM
                &&& 0 <= lifetime <= LIM
                &&& (velocity matches Some(v) ==> wf_vec(v))
            },
            r matches Some(p) ==> {
                &&& p.mass == m
                &&& p.position.x == x
                &&& p.position.y == y
                &&& p.lifetime == lifetime
                &&& p.lifetime_initial == lifetime
                &&& p.acceleration.x == 0
                &&& p.acceleration.y == 0
                &&& (velocity matches Some(v) ==> p.velocity == v)
                &&& (velocity is None ==> p.velocity.x == -FP && p.velocity.y == FP)
                &&& wf_particle(p)
            },
    {
        let vel_ok: bool = match velocity {
            Some(v) => -LIM <= v.x && v.x <= LIM && -LIM <= v.y && v.y <= LIM,
            None => true,
        };
        if 0 < m && m <= LIM && -LIM <= x && x <= LIM && -LIM <= y && y <= LIM && 0 <= lifetime
            && lifetime <= LIM && vel_ok {
            Some(Particle::new(m, x, y, lifetime, velocity))
        } else {
            None
        }
    }

    /// Accumulates `force / mass` into the acceleration.
    pub fn apply_force(&mut self, force: Vec2)
        requires
            wf_particle(*old(self)),
            wf_vec(force),
        ensures
            final(self).acceleration.x == clip(
                old(self).acceleration.x + clip(tdiv(force.x * FP, old(self).mass as int)),
            ),
            final(self).acceleration.y == clip(
                old(self).acceleration.y + clip(tdiv(force.y * FP, old(self).mass as int)),
            ),
            final(self).position == old(self).position,
            final(self).velocity == old(self).velocity,
            final(self).mass == old(self).mass,
            final(self).lifetime == old(self).lifetime,
            final(self).lifetime_initial == old(self).lifetime_initial,
            wf_particle(*final(self)),
    {
        let fx: i64 = muldiv(force.x, FP, self.mass);
        let fy: i64 = muldiv(force.y, FP, self.mass);
        self.acceleration.x = add_clip(self.acceleration.x, fx);
        self.acceleration.y = add_clip(self.acceleration.y, fy);
    }

    /// One explicit-Euler step with unit time: the velocity takes the
    /// accumulated acceleration, the position takes the new velocity, the
    /// acceleration resets to zero, and the remaining lifetime drops by one.
    pub fn update(&mut self)
        requires
            wf_particle(*old(self)),
            old(self).lifetime > -LIM,
        ensures
            final(self).lifetime == old(self).lifetime - 1,
            final(self).velocity.x == clip(old(self).velocity.x + old(self).acceleration.x),
            final(self).velocity.y == clip(old(self).velocity.y + old(self).acceleration.y),
            final(self).position.x == clip(
                old(self).position.x + clip(old(self).velocity.x + old(self).acceleration.x),
            ),
            final(self).position.y == clip(
                old(self).position.y + clip(old(self).velocity.y + old(self).acceleration.y),
            ),
            final(self).acceleration.x == 0,
            final(self).acceleration.y == 0,
            final(self).mass == old(self).mass,
            final(self).lifetime_initial == old(self).lifetime_initial,
            wf_particle(*final(self)),
    {
        self.lifetime = self.lifetime - 1;
        self.velocity.x = add_clip(self.velocity.x, self.acceleration.x);
        self.velocity.y = add_clip(self.velocity.y, self.acceleration.y);
        self.position.x = add_clip(self.position.x, self.velocity.x);
        self.position.y = add_clip(self.position.y, self.velocity.y);
        self.acceleration = Vec2 { x: 0, y: 0 };
    }

    /// Clamps the position onto the rectangle, axis by axis; a clamped axis
    /// bounces: its velocity component is inverted and damped.
    pub fn clamp_to_bounds(&mut self, rect: Rect)
        requires
            wf_particle(*old(self)),
            wf_rect(rect),
        ensures
            final(self).position.x == clamp_axis(
                old(self).position.x as int,
                rect.left as int,
                rect.right as int,
            ),
            final(self).position.y == clamp_axis(
                old(self).position.y as int,
                rect.bottom as int,
                rect.top as int,
            ),
            final(self).velocity.x == if old(self).position.x < rect.left || old(self).position.x
                > rect.right {
                bounce_vel(old(self).velocity.x as int)
            } else {
                old(self).velocity.x as int
            },
            final(self).velocity.y == if old(self).position.y > rect.top || old(self).position.y
                < rect.bottom {
                bounce_vel(old(self).velocity.y as int)
            } else {
                old(self).velocity.y as int
            },
            in_rect(final(self).position, rect),
            final(self).acceleration == old(self).acceleration,
            final(self).mass == old(self).mass,
            final(self).lifetime == old(self).lifetime,
            final(self).lifetime_initial == old(self).lifetime_initial,
            wf_particle(*final(self)),
    {
        if self.position.x < rect.left {
            self.position.x = rect.left;
            self.velocity.x = muldiv(self.velocity.x, -BOUNCE_GAIN, FP);
        } else if self.position.x > rect.right {
            self.position.x = rect.right;
            self.velocity.x = muldiv(self.velocity.x, -BOUNCE_GAIN, FP);
        }
        if self.position.y > rect.top {
            self.position.y = rect.top;
            self.velocity.y = muldiv(self.velocity.y, -BOUNCE_GAIN, FP);
        } else if self.position.y < rect.bottom {
            self.position.y = rect.bottom;
            self.velocity.y = muldiv(self.velocity.y, -BOUNCE_GAIN, FP);
        }
    }

    /// The repulsive force this particle exerts on `m`; see [`spec_repel`].
    pub fn repel(&self, m: &Particle) -> (r: Vec2)
        requires
            wf_particle(*self),
            wf_particle(*m),
        ensures
            r == spec_repel(*self, *m),
            wf_vec(r),
    {
        let dx: i64 = sub_clip(self.position.x, m.position.x);
        let dy: i64 = sub_clip(self.position.y, m.position.y);
        let ax: u128 = (if dx < 0 { -dx } else { dx }) as u128;
        let ay: u128 = (if dy < 0 { -dy } else { dy }) as u128;
        proof {
            assert(ax * ax == dx * dx && ay * ay == dy * dy) by (nonlinear_arith)
                requires
                    ax == absi(dx as int),
                    ay == absi(dy as int),
            ;
            assert(ax * ax + ay * ay <= 2_000_000_000_000_000_000_000_000) by (nonlinear_arith)
                requires
                    ax <= 1_000_000_000_000,
                    ay <= 1_000_000_000_000,
            ;
        }
        let d2: u128 = ax * ax + ay * ay;
        let ds: u64 = isqrt(d2);
        if ds == 0 {
            return Vec2 { x: 0, y: 0 };
        }
        let d: i64 = ds as i64;
        let dc: i64 = if d < REPEL_DIST_MIN {
            REPEL_DIST_MIN
        } else if d > REPEL_DIST_MAX {
            REPEL_DIST_MAX
        } else {
            d
        };
        if dc > REPEL_CUTOFF {
            return Vec2 { x: 0, y: 0 };
        }
        proof {
            assert((self.mass as u128) * (m.mass as u128) <= 1_000_000_000_000_000_000_000_000)
                by (nonlinear_arith)
                requires
                    0 < self.mass <= 1_000_000_000_000,
                    0 < m.mass <= 1_000_000_000_000,
            ;
        }
        let num: u128 = (self.mass as u128) * (m.mass as u128) * (FP as u128);
        let den: u128 = (dc as u128) * (dc as u128);
        proof {
            assert(den > 0) by (nonlinear_arith)
                requires
                    den == (dc as u128) * (dc as u128),
                    dc >= 5000,
            ;
        }
        let sq: u128 = num / den;
        let s: i64 = if sq > (LIM as u128) {
            LIM
        } else {
            sq as i64
        };
        proof {
            assert(num == self.mass * m.mass * FP);
            assert(s == clip(tdiv(self.mass * m.mass * FP, dc * dc)));
        }
        let fx: i64 = muldiv(-dx, s, 2 * d);
        let fy: i64 = muldiv(-dy, s, 2 * d);
        Vec2 { x: fx, y: fy }
    }

    /// The constant downward pull: mass scaled by the gravitational constant.
    pub fn gravity(&self) -> (r: Vec2)
        requires
            wf_particle(*self),
        ensures
            r.x == 0,
            r.y == -clip(tdiv(self.mass * GRAVITY_SCALE, FP as int)),
            wf_vec(r),
    {
        let f: i64 = muldiv(self.mass, GRAVITY_SCALE, FP);
        Vec2 { x: 0, y: -f }
    }

    /// A normalized fade value for a renderer: the remaining share of the
    /// initial lifetime, clamped into `[0, FP]`.
    pub fn opacity(&self) -> (r: i64)
        requires
            wf_particle(*self),
            self.lifetime_initial > 0,
        ensures
            r == {
                let c = clip(tdiv(self.lifetime * FP, self.lifetime_initial as int));
                if c < 0 {
                    0
                } else if c > FP as int {
                    FP as int
                } else {
                    c
                }
            },
            0 <= r <= FP,
    {
        let raw: i64 = muldiv(self.lifetime, FP, self.lifetime_initial);
        if raw < 0 {
            0
        } else if raw > FP {
            FP
        } else {
            raw
        }
    }
}

} // verus!

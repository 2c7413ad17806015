//! The particle system: owns the particle and emitter collections and runs
//! the four-phase tick protocol — a pairwise force pass over the pre-tick
//! snapshot, an integration-and-clamp pass, a reap pass, and an emission
//! pass.

use vstd::prelude::*;

use crate::fixed::FP;
use crate::fixed::Rect;
use crate::fixed::Vec2;
use crate::fixed::clip;
use crate::fixed::in_rect;
use crate::fixed::wf_rect;
use crate::particle::Particle;
use crate::particle::wf_particle;
use crate::rng::RandomSource;
use crate::source::LIFETIMES;
use crate::source::Source;
use crate::source::emit_mass;
use crate::source::emit_speed;
use crate::source::wf_source;

verus! {

/// Emission attempts per source per tick.
pub const EMIT_ATTEMPTS: usize = 10;

/// Base size handed to every emission attempt (`1.5` in fixed point).
pub const EMIT_BASE_SIZE: i64 = 1500;

/// Base speed handed to every emission attempt (`1.0` in fixed point).
pub const EMIT_BASE_SPEED: i64 = 1000;

/// The particle system: particles, emitters, the bounding rectangle and
/// the explicit random source feeding the emitters.
#[derive(Clone)]
pub struct ParticleSystem {
    pub particles: Vec<Particle>,
    pub sources: Vec<Source>,
    pub extent: Rect,
    pub rng: RandomSource,
}

/// The system's invariant: the bounds are a proper rectangle, every source
/// is well formed, and every particle is well formed with a nonnegative
/// remaining lifetime.
pub open spec fn wf_system(s: ParticleSystem) -> bool {
    &&& wf_rect(s.extent)
    &&& forall|i: int| 0 <= i < s.sources@.len() ==> wf_source(#[trigger] s.sources@[i])
    &&& forall|i: int|
        0 <= i < s.particles@.len() ==> wf_particle(#[trigger] s.particles@[i])
            && s.particles@[i].lifetime >= 0
}

/// The subsequence of particles that are still alive (positive remaining
/// lifetime), in order.
pub open spec fn live_seq(s: Seq<Particle>) -> Seq<Particle>
    decreases s.len(),
{
    if s.len() == 0 {
        Seq::empty()
    } else {
        let rest = live_seq(s.drop_last());
        if s.last().lifetime > 0 {
            rest.push(s.last())
        } else {
            rest
        }
    }
}

/// How one tick advances a pre-tick particle `p` into `q`: the lifetime
/// drops by exactly one, mass and initial lifetime are untouched, the
/// accumulated acceleration has been spent (reset to zero), and the new
/// position has been clamped into the bounding rectangle.
pub open spec fn advanced_from(q: Particle, p: Particle, bounds: Rect) -> bool {
    &&& q.lifetime == p.lifetime - 1
    &&& q.mass == p.mass
    &&& q.lifetime_initial == p.lifetime_initial
    &&& q.acceleration.x == 0
    &&& q.acceleration.y == 0
    &&& in_rect(q.position, bounds)
    &&& wf_particle(q)
}

/// A particle freshly emitted by source `s` this tick.
pub open spec fn emitted_by(q: Particle, s: Source) -> bool {
    &&& q.mass == emit_mass(s, EMIT_BASE_SIZE as int)
    &&& in_rect(q.position, s.extent)
    &&& q.velocity.y == emit_speed(s, EMIT_BASE_SPEED as int)
    &&& q.velocity.x == clip(-2 * emit_speed(s, EMIT_BASE_SPEED as int))
    &&& q.acceleration.x == 0
    &&& q.acceleration.y == 0
    &&& q.lifetime == LIFETIMES
    &&& q.lifetime_initial == LIFETIMES
    &&& wf_particle(q)
}

/// A particle freshly emitted by one of the given sources.
pub open spec fn emitted_shape(q: Particle, sources: Seq<Source>) -> bool {
    exists|k: int| 0 <= k < sources.len() && emitted_by(q, #[trigger] sources[k])
}

/// Every source has spawn probability zero: nothing can be emitted.
pub open spec fn no_source_emits(sources: Seq<Source>) -> bool {
    forall|k: int| 0 <= k < sources.len() ==> (#[trigger] sources[k]).modulation.probability == 0
}

/// Every source emits on every attempt: certain probability and a positive
/// modulated mass.
pub open spec fn every_source_emits(sources: Seq<Source>) -> bool {
    forall|k: int|
        0 <= k < sources.len() ==> (#[trigger] sources[k]).modulation.probability == FP
            && emit_mass(sources[k], EMIT_BASE_SIZE as int) > 0
}

/// What one tick does to a particle collection, through the witness `adv`:
/// the pre-tick particles of `before`, each advanced by one tick within
/// `bounds`.  The post-tick collection is exactly the survivors of `adv`,
/// in order, followed by the particles emitted by `sources` this tick.
pub open spec fn ticked(
    before: Seq<Particle>,
    bounds: Rect,
    sources: Seq<Source>,
    after: Seq<Particle>,
    adv: Seq<Particle>,
) -> bool {
    &&& adv.len() == before.len()
    &&& (forall|i: int| 0 <= i < adv.len() ==> advanced_from(#[trigger] adv[i], before[i], bounds))
    &&& live_seq(adv).is_prefix_of(after)
    &&& live_seq(adv).len() <= after.len() <= live_seq(adv).len() + EMIT_ATTEMPTS * sources.len()
    &&& (forall|k: int|
        live_seq(adv).len() <= k < after.len() ==> emitted_shape(#[trigger] after[k], sources))
    &&& (no_source_emits(sources) ==> after.len() == live_seq(adv).len())
    &&& (every_source_emits(sources) ==> after.len() == live_seq(adv).len() + EMIT_ATTEMPTS
        * sources.len())
}

/// [`ticked`], applied to the state of a whole system before and after one
/// tick.
pub open spec fn step_shape(pre: ParticleSystem, post: ParticleSystem, adv: Seq<Particle>) -> bool {
    ticked(pre.particles@, pre.extent, pre.sources@, post.particles@, adv)
}

impl ParticleSystem {
    /// An empty system over the given bounds, with a seeded random source.
    pub fn new(extent: Rect, seed: u64) -> (r: ParticleSystem)
        requires
            wf_rect(extent),
        ensures
            r.particles@.len() == 0,
            r.sources@.len() == 0,
            r.extent == extent,
            r.rng.state == seed,
            wf_system(r),
    {
        ParticleSystem {
            particles: Vec::new(),
            sources: Vec::new(),
            extent,
            rng: RandomSource::new(seed),
        }
    }

    /// Adds an emitter covering `extent`, with the neutral modulation.
    pub fn add_source(&mut self, extent: Rect)
        requires
            wf_system(*old(self)),
            wf_rect(extent),
        ensures
            final(self).sources@.len() == old(self).sources@.len() + 1,
            forall|k: int|
                0 <= k < old(self).sources@.len() ==> final(self).sources@[k] == old(
                    self,
                ).sources@[k],
            final(self).sources@.last().extent == extent,
            final(self).sources@.last().modulation.size == FP,
            final(self).sources@.last().modulation.speed == FP,
            final(self).sources@.last().modulation.probability == FP,
            final(self).particles == old(self).particles,
            final(self).extent == old(self).extent,
            final(self).rng == old(self).rng,
            wf_system(*final(self)),
    {
        self.sources.push(Source::new(extent));
    }

    /// Replaces the bounding rectangle (an external resize).
    pub fn set_extent(&mut self, extent: Rect)
        requires
            wf_system(*old(self)),
            wf_rect(extent),
        ensures
            final(self).extent == extent,
            final(self).particles == old(self).particles,
            final(self).sources == old(self).sources,
            final(self).rng == old(self).rng,
            wf_system(*final(self)),
    {
        self.extent = extent;
    }

    /// Overwrites the modulation triple of one source, with the same
    /// clamping as `Source::modulate`.
    pub fn modulate_source(&mut self, idx: usize, size: i64, speed: i64, probability: i64)
        requires
            wf_system(*old(self)),
            idx < old(self).sources@.len(),
        ensures
            final(self).sources@.len() == old(self).sources@.len(),
            forall|k: int|
                0 <= k < old(self).sources@.len() && k != idx ==> final(self).sources@[k] == old(
                    self,
                ).sources@[k],
            final(self).sources@[idx as int].extent == old(self).sources@[idx as int].extent,
            final(self).sources@[idx as int].modulation.size == crate::source::clamp_mult(
                size as int,
            ),
            final(self).sources@[idx as int].modulation.speed == crate::source::clamp_mult(
                speed as int,
            ),
            final(self).sources@[idx as int].modulation.probability == crate::source::clamp_prob(
                probability as int,
            ),
            final(self).particles == old(self).particles,
            final(self).extent == old(self).extent,
            final(self).rng == old(self).rng,
            wf_system(*final(self)),
    {
        let mut s: Source = self.sources[idx];
        s.modulate(size, speed, probability);
        self.sources[idx] = s;
    }

    /// One tick: all pairwise repulsive forces and gravity are accumulated
    /// from the pre-tick snapshot, every particle integrates one step and
    /// is clamped into the bounds, expired particles are reaped, and every
    /// source makes its emission attempts.
    pub fn step(&mut self)
        requires
            wf_system(*old(self)),
        ensures
            final(self).extent == old(self).extent,
            final(self).sources@ == old(self).sources@,
            wf_system(*final(self)),
            exists|adv: Seq<Particle>| step_shape(*old(self), *final(self), adv),
    {
        let ghost pre = *old(self);
        let n: usize = self.particles.len();
        // Phase 1: force accumulation.  Repulsion and gravity read only
        // position and mass, which this pass never writes, so every force
        // is computed from the consistent pre-tick snapshot.
        let mut i: usize = 0;
        while i < n
            invariant
                i <= n,
                n == self.particles@.len(),
                n == pre.particles@.len(),
                self.extent == pre.extent,
                self.sources@ == pre.sources@,
                wf_system(pre),
                forall|k: int|
                    0 <= k < n ==> {
                        let q = #[trigger] self.particles@[k];
                        let p = pre.particles@[k];
                        &&& wf_particle(q)
                        &&& q.position == p.position
                        &&& q.velocity == p.velocity
                        &&& q.mass == p.mass
                        &&& q.lifetime == p.lifetime
                        &&& q.lifetime_initial == p.lifetime_initial
                    },
            decreases n - i,
        {
            let mut j: usize = 0;
            while j < n
                invariant
                    i < n,
                    j <= n,
                    n == self.particles@.len(),
                    n == pre.particles@.len(),
                    self.extent == pre.extent,
                    self.sources@ == pre.sources@,
                    wf_system(pre),
                    forall|k: int|
                        0 <= k < n ==> {
                            let q = #[trigger] self.particles@[k];
                            let p = pre.particles@[k];
                            &&& wf_particle(q)
                            &&& q.position == p.position
                            &&& q.velocity == p.velocity
                            &&& q.mass == p.mass
                            &&& q.lifetime == p.lifetime
                            &&& q.lifetime_initial == p.lifetime_initial
                        },
                decreases n - j,
            {
                if i != j {
                    let pj: Particle = self.particles[j];
                    let f: Vec2 = pj.repel(&self.particles[i]);
                    let mut pi: Particle = self.particles[i];
                    pi.apply_force(f);
                    self.particles[i] = pi;
                }
                j = j + 1;
            }
            let mut pi: Particle = self.particles[i];
            let g: Vec2 = pi.gravity();
            pi.apply_force(g);
            self.particles[i] = pi;
            i = i + 1;
        }
        // Phase 2: integration and boundary clamping.
        let mut i: usize = 0;
        while i < n
            invariant
                i <= n,
                n == self.particles@.len(),
                n == pre.particles@.len(),
                self.extent == pre.extent,
                self.sources@ == pre.sources@,
                wf_system(pre),
                forall|k: int|
                    0 <= k < i ==> advanced_from(
                        #[trigger] self.particles@[k],
                        pre.particles@[k],
                        pre.extent,
                    ),
                forall|k: int|
                    i <= k < n ==> {
                        let q = #[trigger] self.particles@[k];
                        &&& wf_particle(q)
                        &&& q.lifetime == pre.particles@[k].lifetime
                        &&& q.mass == pre.particles@[k].mass
                        &&& q.lifetime_initial == pre.particles@[k].lifetime_initial
                    },
            decreases n - i,
        {
            let mut p: Particle = self.particles[i];
            p.update();
            p.clamp_to_bounds(self.extent);
            self.particles[i] = p;
            i = i + 1;
        }
        let ghost adv = self.particles@;
        // Phase 3: reap expired particles, keeping the survivors in order.
        let mut kept: Vec<Particle> = Vec::new();
        let mut i: usize = 0;
        while i < n
            invariant
                i <= n,
                n == self.particles@.len(),
                adv == self.particles@,
                kept@ == live_seq(adv.subrange(0, i as int)),
                forall|k: int|
                    0 <= k < kept@.len() ==> wf_particle(#[trigger] kept@[k]) && kept@[k].lifetime
                        > 0,
                forall|k: int| 0 <= k < n ==> wf_particle(#[trigger] adv[k]),
            decreases n - i,
        {
            let p: Particle = self.particles[i];
            proof {
                assert(adv.subrange(0, i + 1).drop_last() =~= adv.subrange(0, i as int));
                assert(adv.subrange(0, i + 1).last() == adv[i as int]);
            }
            if p.lifetime > 0 {
                kept.push(p);
            }
            i = i + 1;
        }
        proof {
            assert(adv.subrange(0, n as int) =~= adv);
        }
        self.particles = kept;
        // Phase 4: emission.
        let ghost base = self.particles@;
        let ns: usize = self.sources.len();
        let mut si: usize = 0;
        while si < ns
            invariant
                si <= ns,
                ns == self.sources@.len(),
                self.extent == pre.extent,
                self.sources@ == pre.sources@,
                wf_system(pre),
                base == live_seq(adv),
                base.is_prefix_of(self.particles@),
                base.len() <= self.particles@.len() <= base.len() + EMIT_ATTEMPTS * si,
                forall|k: int|
                    base.len() <= k < self.particles@.len() ==> emitted_shape(
                        #[trigger] self.particles@[k],
                        pre.sources@,
                    ),
                forall|k: int|
                    0 <= k < self.particles@.len() ==> wf_particle(#[trigger] self.particles@[k])
                        && self.particles@[k].lifetime > 0,
                no_source_emits(pre.sources@) ==> self.particles@.len() == base.len(),
                every_source_emits(pre.sources@) ==> self.particles@.len() == base.len()
                    + EMIT_ATTEMPTS * si,
            decreases ns - si,
        {
            let src: Source = self.sources[si];
            let mut a: usize = 0;
            while a < EMIT_ATTEMPTS
                invariant
                    a <= EMIT_ATTEMPTS,
                    si < ns,
                    ns == self.sources@.len(),
                    self.extent == pre.extent,
                    self.sources@ == pre.sources@,
                    wf_system(pre),
                    src == pre.sources@[si as int],
                    base.is_prefix_of(self.particles@),
                    base.len() <= self.particles@.len() <= base.len() + EMIT_ATTEMPTS * si + a,
                    forall|k: int|
                        base.len() <= k < self.particles@.len() ==> emitted_shape(
                            #[trigger] self.particles@[k],
                            pre.sources@,
                        ),
                    forall|k: int|
                        0 <= k < self.particles@.len() ==> wf_particle(
                            #[trigger] self.particles@[k],
                        ) && self.particles@[k].lifetime > 0,
                    no_source_emits(pre.sources@) ==> self.particles@.len() == base.len(),
                    every_source_emits(pre.sources@) ==> self.particles@.len() == base.len()
                        + EMIT_ATTEMPTS * si + a,
                decreases EMIT_ATTEMPTS - a,
            {
                let ghost rs = self.rng.state;
                let got: Option<Particle> = src.get(EMIT_BASE_SIZE, EMIT_BASE_SPEED, &mut self.rng);
                proof {
                    crate::rng::lemma_draw_range(rs, 0, FP - 1);
                }
                match got {
                    Some(p) => {
                        self.particles.push(p);
                    },
                    None => {},
                }
                a = a + 1;
            }
            si = si + 1;
        }
        proof {
            assert(step_shape(pre, *self, adv));
        }
    }
}

} // verus!

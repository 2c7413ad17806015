//! The per-frame controller: advances the oscillator, maps its phase to a
//! modulation triple, pushes the triple into the first emitter, and runs
//! one tick of the particle system.  This closes the feedback loop from
//! the heartbeat signal to the emission behaviour.

use vstd::prelude::*;

use crate::fixed::FP;
use crate::fixed::LIM;
use crate::fixed::absi;
use crate::fixed::clip;
use crate::heart::Heart;
use crate::heart::beat_output;
use crate::heart::beat_ph_after;
use crate::heart::wf_heart;
use crate::particle::Particle;
use crate::source::clamp_mult;
use crate::source::clamp_prob;
use crate::system::ParticleSystem;
use crate::system::ticked;
use crate::system::wf_system;

verus! {

/// The feedback mapping from the oscillator phase to the raw modulation
/// value: the distance of the phase from its resting point, folded so that
/// only a phase well away from rest drives the emitter, and dead otherwise.
pub open spec fn drive(ph: int) -> int {
    let f0 = absi(250 - ph);
    if f0 > 200 {
        FP - f0
    } else {
        0
    }
}

/// The outer simulation state: the tick counter, the heart with its
/// oscillator, and the particle system.
#[derive(Clone)]
pub struct Model {
    pub t: i64,
    pub heart: Heart,
    pub particle_system: ParticleSystem,
}

/// The model is well formed when its parts are and it has the one emitter
/// the controller drives.
pub open spec fn wf_model(m: Model) -> bool {
    &&& 0 <= m.t <= LIM as int
    &&& wf_heart(m.heart)
    &&& wf_system(m.particle_system)
    &&& m.particle_system.sources@.len() > 0
}

impl Model {
    /// Assembles a model at tick zero.
    pub fn new(heart: Heart, particle_system: ParticleSystem) -> (r: Model)
        requires
            wf_heart(heart),
            wf_system(particle_system),
            particle_system.sources@.len() > 0,
        ensures
            r.t == 0,
            r.heart == heart,
            r.particle_system == particle_system,
            wf_model(r),
    {
        Model { t: 0, heart, particle_system }
    }

    /// One frame: the tick counter advances, the oscillator is queried at
    /// the new tick, the heart's display scale follows the beat, the phase
    /// is folded into a modulation triple pushed into the first emitter,
    /// and the particle system runs one tick.
    pub fn step(&mut self)
        requires
            wf_model(*old(self)),
            old(self).t < LIM,
        ensures
            final(self).t == old(self).t + 1,
            final(self).heart.points == old(self).heart.points,
            final(self).heart.beat.interval == old(self).heart.beat.interval,
            final(self).heart.beat.scale == old(self).heart.beat.scale,
            final(self).heart.beat.kind == old(self).heart.beat.kind,
            final(self).heart.beat.ph == beat_ph_after(old(self).heart.beat, old(self).t + 1),
            final(self).heart.scale == clip(
                20 * FP + beat_output(old(self).heart.beat, old(self).t + 1),
            ),
            final(self).particle_system.extent == old(self).particle_system.extent,
            final(self).particle_system.sources@.len() == old(self).particle_system.sources@.len(),
            forall|k: int|
                0 < k < old(self).particle_system.sources@.len()
                    ==> final(self).particle_system.sources@[k]
                    == old(self).particle_system.sources@[k],
            ({
                let f = drive(beat_ph_after(old(self).heart.beat, old(self).t + 1));
                let src = final(self).particle_system.sources@[0];
                &&& src.extent == old(self).particle_system.sources@[0].extent
                &&& src.modulation.size == clamp_mult(f + 500)
                &&& src.modulation.speed == clamp_mult(
                    if f > 100 {
                        f
                    } else {
                        100
                    },
                )
                &&& src.modulation.probability == clamp_prob(f)
            }),
            exists|adv: Seq<Particle>|
                ticked(
                    old(self).particle_system.particles@,
                    old(self).particle_system.extent,
                    final(self).particle_system.sources@,
                    final(self).particle_system.particles@,
                    adv,
                ),
            wf_model(*final(self)),
    {
        self.t = self.t + 1;
        let v: i64 = self.heart.beat.get(self.t);
        let hs: i64 = if v > LIM - 20 * FP {
            LIM
        } else {
            20 * FP + v
        };
        self.heart.scale = hs;
        let ph: i64 = self.heart.beat.ph;
        let d: i64 = 250 - ph;
        let f0: i64 = if d < 0 {
            -d
        } else {
            d
        };
        let f: i64 = if f0 > 200 {
            FP - f0
        } else {
            0
        };
        let fsp: i64 = if f > 100 {
            f
        } else {
            100
        };
        self.particle_system.modulate_source(0, f + 500, fsp, f);
        self.particle_system.step();
    }
}

} // verus!

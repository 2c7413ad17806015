//! The library's laws: general properties of the simulation, stated over
//! the same spec functions the executable contracts use, and proved once
//! and for all.

use vstd::prelude::*;

use crate::fixed::FP;
use crate::fixed::Rect;
use crate::fixed::clip;
use crate::fixed::in_rect;
use crate::fixed::sqrt_floor;
use crate::fixed::tdiv;
use crate::heart::Beat;
use crate::heart::FLOOR_OFFSET;
use crate::heart::PH_REST;
use crate::heart::TWO_PI_FP;
use crate::heart::beat_output;
use crate::heart::beat_ph_after;
use crate::heart::lemma_beat_value_range;
use crate::heart::lemma_sine_range;
use crate::heart::sine_fp_spec;
use crate::heart::wf_beat;
use crate::particle::Particle;
use crate::particle::REPEL_CUTOFF;
use crate::particle::REPEL_DIST_MAX;
use crate::particle::REPEL_DIST_MIN;
use crate::particle::spec_repel;
use crate::particle::wf_particle;
use crate::source::Source;
use crate::source::emit_mass;
use crate::source::emits;
use crate::system::live_seq;
use crate::system::no_source_emits;
use crate::system::ticked;

verus! {

/// How many particles of `s` have a remaining lifetime of at least `t`.
pub open spec fn count_min_life(s: Seq<Particle>, t: int) -> int
    decreases s.len(),
{
    if s.len() == 0 {
        0
    } else {
        count_min_life(s.drop_last(), t) + if s.last().lifetime >= t {
            1int
        } else {
            0int
        }
    }
}

/// The survivors of a collection are exactly its live members: as many as
/// the particles with positive lifetime, each alive and drawn from the
/// collection.
pub proof fn lemma_live_seq_structure(s: Seq<Particle>)
    ensures
        live_seq(s).len() == count_min_life(s, 1),
        forall|k: int|
            0 <= k < live_seq(s).len() ==> (#[trigger] live_seq(s)[k]).lifetime > 0 && s.contains(
                live_seq(s)[k],
            ),
    decreases s.len(),
{
    if s.len() > 0 {
        lemma_live_seq_structure(s.drop_last());
        let rest = live_seq(s.drop_last());
        assert forall|k: int| 0 <= k < live_seq(s).len() implies (#[trigger] live_seq(
            s,
        )[k]).lifetime > 0 && s.contains(live_seq(s)[k]) by {
            if s.last().lifetime > 0 && k == live_seq(s).len() - 1 {
                assert(live_seq(s)[k] == s[s.len() - 1]);
            } else {
                assert(live_seq(s)[k] == rest[k]);
                assert(s.drop_last().contains(rest[k]));
                let i = choose|i: int|
                    0 <= i < s.drop_last().len() && s.drop_last()[i] == rest[k];
                assert(s[i] == rest[k]);
            }
        }
    }
}

/// If every particle of `adv` carries exactly one tick less than its
/// counterpart in `before`, then the live members of `adv` are exactly the
/// members of `before` that had at least two ticks left.
pub proof fn lemma_count_decrement(adv: Seq<Particle>, before: Seq<Particle>)
    requires
        adv.len() == before.len(),
        forall|i: int|
            0 <= i < adv.len() ==> (#[trigger] adv[i]).lifetime == before[i].lifetime - 1,
    ensures
        count_min_life(adv, 1) == count_min_life(before, 2),
    decreases adv.len(),
{
    if adv.len() > 0 {
        assert(adv[adv.len() - 1].lifetime == before[before.len() - 1].lifetime - 1);
        assert forall|i: int|
            0 <= i < adv.drop_last().len() implies (#[trigger] adv.drop_last()[i]).lifetime
            == before.drop_last()[i].lifetime - 1 by {
            assert(adv.drop_last()[i] == adv[i]);
            assert(before.drop_last()[i] == before[i]);
        }
        lemma_count_decrement(adv.drop_last(), before.drop_last());
    }
}

/// Lifetime monotonicity.  Over one tick, every surviving particle's
/// remaining lifetime has dropped by exactly one (and is still positive),
/// and exactly the pre-tick particles with at least two remaining ticks
/// survive the reap, so a particle entering a tick with one tick left is
/// gone afterwards.
pub proof fn lemma_lifetime_monotonic(
    before: Seq<Particle>,
    bounds: Rect,
    sources: Seq<Source>,
    after: Seq<Particle>,
    adv: Seq<Particle>,
)
    requires
        ticked(before, bounds, sources, after, adv),
    ensures
        live_seq(adv).len() == count_min_life(before, 2),
        forall|k: int|
            0 <= k < live_seq(adv).len() ==> (#[trigger] after[k]).lifetime >= 1 && exists|i: int|
                0 <= i < before.len() && after[k].lifetime == before[i].lifetime - 1,
{
    lemma_live_seq_structure(adv);
    lemma_count_decrement(adv, before);
    assert forall|k: int| 0 <= k < live_seq(adv).len() implies (#[trigger] after[k]).lifetime >= 1
        && exists|i: int| 0 <= i < before.len() && after[k].lifetime == before[i].lifetime - 1 by {
        assert(after[k] == live_seq(adv)[k]);
        assert(adv.contains(live_seq(adv)[k]));
        let j = choose|j: int| 0 <= j < adv.len() && adv[j] == live_seq(adv)[k];
        assert(adv[j].lifetime == before[j].lifetime - 1);
    }
}

/// Every particle of `s` has at most `m` ticks left.
pub open spec fn all_life_at_most(s: Seq<Particle>, m: int) -> bool {
    forall|i: int| 0 <= i < s.len() ==> (#[trigger] s[i]).lifetime <= m
}

/// A collection whose members are all expired has no live member.
proof fn lemma_all_expired_count_zero(s: Seq<Particle>)
    requires
        all_life_at_most(s, 0),
    ensures
        count_min_life(s, 1) == 0,
    decreases s.len(),
{
    if s.len() > 0 {
        assert(s.last() == s[s.len() - 1]);
        assert forall|i: int| 0 <= i < s.drop_last().len() implies (#[trigger] s.drop_last()[
        i]).lifetime <= 0 by {
            assert(s.drop_last()[i] == s[i]);
        }
        lemma_all_expired_count_zero(s.drop_last());
    }
}

/// One tick of decay: with no emission, a population bounded by `m`
/// remaining ticks is bounded by `m - 1` afterwards, and a population
/// bounded by one remaining tick is entirely reaped.
pub proof fn lemma_expiry_step(
    before: Seq<Particle>,
    bounds: Rect,
    sources: Seq<Source>,
    after: Seq<Particle>,
    adv: Seq<Particle>,
    m: int,
)
    requires
        ticked(before, bounds, sources, after, adv),
        no_source_emits(sources),
        all_life_at_most(before, m),
    ensures
        all_life_at_most(after, m - 1),
        m <= 1 ==> after.len() == 0,
{
    lemma_live_seq_structure(adv);
    assert forall|k: int| 0 <= k < after.len() implies (#[trigger] after[k]).lifetime <= m - 1 by {
        assert(after[k] == live_seq(adv)[k]);
        assert(adv.contains(live_seq(adv)[k]));
        let j = choose|j: int| 0 <= j < adv.len() && adv[j] == live_seq(adv)[k];
        assert(adv[j].lifetime == before[j].lifetime - 1);
    }
    if m <= 1 {
        assert forall|i: int| 0 <= i < adv.len() implies (#[trigger] adv[i]).lifetime <= 0 by {
            assert(adv[i].lifetime == before[i].lifetime - 1);
        }
        lemma_all_expired_count_zero(adv);
    }
}

/// Lifetime expiry.  With no emission, a population whose members all
/// have at most `l` remaining ticks is gone after `l` ticks: over any
/// chain of `l` or more ticks, the collection at step `l` is empty.
/// Together with [`lemma_lifetime_monotonic`] (which pins the exact
/// survivor count of each tick) this says a particle with initial
/// lifetime `l` is present for fewer than `l` ticks and absent from the
/// `l`-th tick on.
pub proof fn lemma_lifetime_expiry(
    states: Seq<Seq<Particle>>,
    bounds: Rect,
    sources: Seq<Source>,
    advs: Seq<Seq<Particle>>,
    l: int,
)
    requires
        states.len() == advs.len() + 1,
        1 <= l <= advs.len(),
        no_source_emits(sources),
        forall|j: int|
            0 <= j < advs.len() ==> ticked(
                #[trigger] states[j],
                bounds,
                sources,
                states[j + 1],
                advs[j],
            ),
        all_life_at_most(states[0], l),
    ensures
        states[l].len() == 0,
    decreases l,
{
    lemma_expiry_step(states[0], bounds, sources, states[1], advs[0], l);
    if l > 1 {
        let tail_states = states.skip(1);
        let tail_advs = advs.skip(1);
        assert forall|j: int|
            0 <= j < tail_advs.len() implies ticked(
            #[trigger] tail_states[j],
            bounds,
            sources,
            tail_states[j + 1],
            tail_advs[j],
        ) by {
            assert(tail_states[j] == states[j + 1]);
            assert(tail_states[j + 1] == states[j + 2]);
            assert(tail_advs[j] == advs[j + 1]);
            assert(ticked(states[j + 1], bounds, sources, states[j + 2], advs[j + 1]));
        }
        lemma_lifetime_expiry(tail_states, bounds, sources, tail_advs, l - 1);
        assert(tail_states[l - 1] == states[l]);
    }
}

/// Boundary containment.  Over one tick, every surviving particle's
/// position lies inside the bounding rectangle, edges included.
pub proof fn lemma_boundary_containment(
    before: Seq<Particle>,
    bounds: Rect,
    sources: Seq<Source>,
    after: Seq<Particle>,
    adv: Seq<Particle>,
)
    requires
        ticked(before, bounds, sources, after, adv),
    ensures
        forall|k: int|
            0 <= k < live_seq(adv).len() ==> in_rect((#[trigger] after[k]).position, bounds),
{
    lemma_live_seq_structure(adv);
    assert forall|k: int| 0 <= k < live_seq(adv).len() implies in_rect(
        (#[trigger] after[k]).position,
        bounds,
    ) by {
        assert(after[k] == live_seq(adv)[k]);
        assert(adv.contains(live_seq(adv)[k]));
        let j = choose|j: int| 0 <= j < adv.len() && adv[j] == live_seq(adv)[k];
        assert(in_rect(adv[j].position, bounds));
    }
}

/// Truncating division is odd in its numerator.
proof fn lemma_tdiv_odd(a: int, b: int)
    requires
        b > 0,
    ensures
        tdiv(-a, b) == -tdiv(a, b),
{
}

/// Repulsion symmetry.  The force `a` exerts on `b` and the force `b`
/// exerts on `a` are exactly equal in magnitude and opposite in direction,
/// component by component — an exact Newton-third-law shape, with no
/// rounding asymmetry.
pub proof fn lemma_repel_antisymmetric(a: Particle, b: Particle)
    requires
        wf_particle(a),
        wf_particle(b),
    ensures
        spec_repel(a, b).x as int == -(spec_repel(b, a).x as int),
        spec_repel(a, b).y as int == -(spec_repel(b, a).y as int),
{
    let dx1 = clip(a.position.x - b.position.x);
    let dy1 = clip(a.position.y - b.position.y);
    let dx2 = clip(b.position.x - a.position.x);
    let dy2 = clip(b.position.y - a.position.y);
    assert(dx2 == -dx1 && dy2 == -dy1);
    assert(dx2 * dx2 == dx1 * dx1 && dy2 * dy2 == dy1 * dy1) by (nonlinear_arith)
        requires
            dx2 == -dx1,
            dy2 == -dy1,
    ;
    assert(dx1 * dx1 >= 0 && dy1 * dy1 >= 0) by (nonlinear_arith);
    crate::fixed::lemma_sqrt_floor_props(dx1 * dx1 + dy1 * dy1);
    let d = sqrt_floor(dx1 * dx1 + dy1 * dy1);
    let dc = if d < REPEL_DIST_MIN as int {
        REPEL_DIST_MIN as int
    } else if d > REPEL_DIST_MAX as int {
        REPEL_DIST_MAX as int
    } else {
        d
    };
    if !(d == 0 || dc > REPEL_CUTOFF as int) {
        let s = clip(tdiv(a.mass * b.mass * FP, dc * dc));
        assert(a.mass * b.mass == b.mass * a.mass) by (nonlinear_arith);
        let u = dx1 * s;
        let w = dy1 * s;
        assert(-dx1 * s == -u && -dx2 * s == u && -dy1 * s == -w && -dy2 * s == w)
            by (nonlinear_arith)
            requires
                dx2 == -dx1,
                dy2 == -dy1,
                u == dx1 * s,
                w == dy1 * s,
        ;
        lemma_tdiv_odd(u, 2 * d);
        lemma_tdiv_odd(w, 2 * d);
    }
}

/// Emission probability at the edges.  Whatever the draw, a spawn
/// probability of zero never emits, and a spawn probability of one (with a
/// positive modulated mass) emits on every attempt.
pub proof fn lemma_emission_edges(s: Source, base_size: int, u: int)
    requires
        0 <= u < FP as int,
    ensures
        s.modulation.probability == 0 ==> !emits(s, base_size, u),
        s.modulation.probability == FP && emit_mass(s, base_size) > 0 ==> emits(s, base_size, u),
{
}

/// Oscillator floor.  For every tick, the continuous beat signal stays at
/// or above the floor offset — it never approaches zero — and never rises
/// past the amplitude scale plus the floor.
pub proof fn lemma_oscillator_floor(b: Beat, t: int)
    requires
        wf_beat(b),
        b.kind is Sin,
        t >= 0,
    ensures
        FLOOR_OFFSET as int <= beat_output(b, t) <= b.scale + FLOOR_OFFSET,
{
    assert(t * FP >= 0) by (nonlinear_arith)
        requires
            t >= 0,
    ;
    vstd::arithmetic::div_mod::lemma_div_pos_is_pos(t * FP, b.interval as int);
    let arg = clip(tdiv(t * FP, b.interval as int));
    lemma_sine_range(arg);
    lemma_beat_value_range(b.scale as int, sine_fp_spec(arg));
}

/// Intermittent rhythm, value part.  In a resting window (the window index
/// `floor(t / interval)` is not a multiple of three) the oscillator
/// returns exactly its scale, with no oscillation, and parks its phase;
/// in an active window the output obeys the same floor and ceiling as the
/// continuous signal.
pub proof fn lemma_intermittent_rest(b: Beat, t: int)
    requires
        wf_beat(b),
        b.kind is IntermittentSin,
        t >= 0,
    ensures
        (t / (b.interval as int)) % 3 != 0 ==> beat_output(b, t) == b.scale && beat_ph_after(b, t)
            == PH_REST as int,
        (t / (b.interval as int)) % 3 == 0 ==> FLOOR_OFFSET as int <= beat_output(b, t) <= b.scale
            + FLOOR_OFFSET,
{
    if (t / (b.interval as int)) % 3 == 0 {
        vstd::arithmetic::div_mod::lemma_div_pos_is_pos(FP as int, b.interval as int);
        let ph2 = clip(b.ph + tdiv(FP as int, b.interval as int));
        assert(ph2 * TWO_PI_FP >= 0) by (nonlinear_arith)
            requires
                ph2 >= 0,
        ;
        vstd::arithmetic::div_mod::lemma_div_pos_is_pos(ph2 * TWO_PI_FP, FP as int);
        let arg = clip(tdiv(ph2 * TWO_PI_FP, FP as int));
        lemma_sine_range(arg);
        lemma_beat_value_range(b.scale as int, sine_fp_spec(arg));
    }
}

/// Intermittent rhythm, period part.  The active/resting pattern repeats
/// with period `3 * interval` ticks: the window index modulo three is the
/// same at `t` and at `t + 3 * interval`.
pub proof fn lemma_rhythm_period(t: int, i: int)
    requires
        t >= 0,
        i >= 1,
    ensures
        ((t + 3 * i) / i) % 3 == (t / i) % 3,
{
    let q = t / i;
    let r = t % i;
    vstd::arithmetic::div_mod::lemma_fundamental_div_mod(t, i);
    vstd::arithmetic::div_mod::lemma_mod_bound(t, i);
    assert(t + 3 * i == i * (q + 3) + r) by (nonlinear_arith)
        requires
            t == i * q + r,
    ;
    vstd::arithmetic::div_mod::lemma_div_multiples_vanish_fancy(q + 3, r, i);
    assert((t + 3 * i) / i == q + 3);
    vstd::arithmetic::div_mod::lemma_mod_multiples_vanish(1, q, 3);
    assert(3 * 1 + q == q + 3);
}

/// Integration at rest.  A particle with zero velocity and no accumulated
/// force keeps its exact position through an integration step and stays at
/// rest, so its position is unchanged after any number of such ticks.
pub proof fn lemma_integration_at_rest(p: Particle)
    requires
        wf_particle(p),
        p.velocity.x == 0,
        p.velocity.y == 0,
        p.acceleration.x == 0,
        p.acceleration.y == 0,
    ensures
        clip(p.velocity.x + p.acceleration.x) == 0,
        clip(p.velocity.y + p.acceleration.y) == 0,
        clip(p.position.x + clip(p.velocity.x + p.acceleration.x)) == p.position.x,
        clip(p.position.y + clip(p.velocity.y + p.acceleration.y)) == p.position.y,
{
}

} // verus!

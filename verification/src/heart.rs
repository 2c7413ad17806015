//! The heartbeat oscillator and the heart outline.
//!
//! [`Beat`] turns the monotonically increasing tick counter into a bounded
//! control signal.  The continuous kind is a pure sine pulse lifted by a
//! small floor so it never reaches zero; the intermittent kind alternates
//! one active window with two resting windows of the same length, keeping
//! a phase accumulator across ticks while active.
//!
//! The sine itself is the standard quadratic half-wave approximation in
//! fixed point; its exact value is pinned by [`sine_fp_spec`] and its range
//! never leaves `[-FP, FP]`.

use vstd::prelude::*;

use crate::fixed::FP;
use crate::fixed::LIM;
use crate::fixed::Vec2;
use crate::fixed::clip;
use crate::fixed::fpmul;
use crate::fixed::muldiv;
use crate::fixed::tdiv;
use crate::fixed::wf_vec;

verus! {

/// The circle constant, `pi` in fixed point.
pub const PI_FP: i64 = 3142;

/// One full turn, `2 * pi` in fixed point.
pub const TWO_PI_FP: i64 = 6284;

/// Divisor of the quadratic half-wave: `PI_FP * PI_FP / FP`.
pub const QDIV: i64 = 9872;

/// The small positive lift keeping the continuous signal away from zero,
/// `0.1` in fixed point.
pub const FLOOR_OFFSET: i64 = 100;

/// The fixed phase a resting intermittent oscillator parks at, `0.25` in
/// fixed point.
pub const PH_REST: i64 = 250;

/// The quadratic half-wave `4 x (pi - x) / pi^2` in fixed point, for `x`
/// in `[0, PI_FP]`; it spans `[0, FP]`.
pub open spec fn half_wave(x: int) -> int
    recommends
        0 <= x <= PI_FP as int,
{
    tdiv(4 * x * (PI_FP - x), QDIV as int)
}

/// The fixed-point sine of a nonnegative angle: the angle reduced to one
/// turn, a positive half-wave on the first half, a negative one on the
/// second.
pub open spec fn sine_fp_spec(x: int) -> int
    recommends
        x >= 0,
{
    let r = x % (TWO_PI_FP as int);
    if r <= PI_FP as int {
        half_wave(r)
    } else {
        -half_wave(r - PI_FP as int)
    }
}

/// The half-wave never leaves `[0, FP]`.
pub proof fn lemma_half_wave_range(x: int)
    requires
        0 <= x <= PI_FP as int,
    ensures
        0 <= half_wave(x) <= FP as int,
{
    assert(0 <= 4 * x * (PI_FP - x) <= 9_872_164) by (nonlinear_arith)
        requires
            0 <= x <= 3142,
    ;
    vstd::arithmetic::div_mod::lemma_div_is_ordered(4 * x * (PI_FP - x), 9_872_164, QDIV as int);
}

/// The sine never leaves `[-FP, FP]`, for any nonnegative angle.
pub proof fn lemma_sine_range(x: int)
    requires
        x >= 0,
    ensures
        -(FP as int) <= sine_fp_spec(x) <= FP as int,
{
    let r = x % (TWO_PI_FP as int);
    vstd::arithmetic::div_mod::lemma_mod_bound(x, TWO_PI_FP as int);
    if r <= PI_FP as int {
        lemma_half_wave_range(r);
    } else {
        lemma_half_wave_range(r - PI_FP as int);
    }
}

/// The continuous beat formula: the sine value `s` shifted into `[0, 2]`,
/// scaled down to `[0, scale]`, lifted by the floor.
pub open spec fn beat_value(scale: int, s: int) -> int {
    tdiv(scale * (s + FP), 2 * FP) + FLOOR_OFFSET
}

/// The continuous beat formula stays within `[FLOOR_OFFSET, scale +
/// FLOOR_OFFSET]` whenever the sine value is in range.
pub proof fn lemma_beat_value_range(scale: int, s: int)
    requires
        0 <= scale <= LIM as int,
        -(FP as int) <= s <= FP as int,
    ensures
        FLOOR_OFFSET as int <= beat_value(scale, s) <= scale + FLOOR_OFFSET,
{
    assert(0 <= scale * (s + FP) <= scale * (2 * FP)) by (nonlinear_arith)
        requires
            0 <= scale,
            0 <= s + FP <= 2 * FP,
    ;
    vstd::arithmetic::div_mod::lemma_div_is_ordered(scale * (s + FP), scale * (2 * FP), 2 * FP);
    assert((scale * (2 * FP)) / (2 * FP) == scale) by {
        vstd::arithmetic::div_mod::lemma_div_by_multiple(scale, 2 * FP);
    }
}

/// The two oscillator variants.
#[derive(Clone, Copy, PartialEq, Eq, Structural, Debug)]
pub enum BeatKind {
    Sin,
    IntermittentSin,
}

/// The heartbeat oscillator: an interval (tick-scale divisor), an
/// amplitude scale, a variant tag, and a phase accumulator used only by
/// the intermittent variant.
#[derive(Clone, Copy, PartialEq, Eq, Structural, Debug)]
pub struct Beat {
    pub interval: i64,
    pub scale: i64,
    pub kind: BeatKind,
    pub ph: i64,
}

pub open spec fn wf_beat(b: Beat) -> bool {
    &&& 1 <= b.interval <= LIM as int
    &&& 0 <= b.scale <= LIM as int
    &&& 0 <= b.ph <= LIM as int
}

/// The value [`Beat::get`] returns for tick `t`.
pub open spec fn beat_output(b: Beat, t: int) -> int
    recommends
        wf_beat(b),
        t >= 0,
{
    if b.kind is Sin {
        beat_value(b.scale as int, sine_fp_spec(clip(tdiv(t * FP, b.interval as int))))
    } else {
        if (t / (b.interval as int)) % 3 == 0 {
            let ph2 = clip(b.ph + tdiv(FP as int, b.interval as int));
            beat_value(b.scale as int, sine_fp_spec(clip(tdiv(ph2 * TWO_PI_FP, FP as int))))
        } else {
            b.scale as int
        }
    }
}

/// The phase accumulator [`Beat::get`] leaves behind for tick `t`.
pub open spec fn beat_ph_after(b: Beat, t: int) -> int
    recommends
        wf_beat(b),
        t >= 0,
{
    if b.kind is Sin {
        b.ph as int
    } else {
        if (t / (b.interval as int)) % 3 == 0 {
            clip(b.ph + tdiv(FP as int, b.interval as int))
        } else {
            PH_REST as int
        }
    }
}

/// The fixed-point sine, exactly [`sine_fp_spec`].
pub fn sine_fp(x: i64) -> (r: i64)
    requires
        0 <= x <= LIM,
    ensures
        r == sine_fp_spec(x as int),
        -FP <= r <= FP,
{
    let m: i64 = ((x as u64) % (TWO_PI_FP as u64)) as i64;
    proof {
        lemma_sine_range(x as int);
    }
    if m <= PI_FP {
        half_wave_exec(m)
    } else {
        -half_wave_exec(m - PI_FP)
    }
}

/// The quadratic half-wave, exactly [`half_wave`].
fn half_wave_exec(x: i64) -> (r: i64)
    requires
        0 <= x <= PI_FP,
    ensures
        r == half_wave(x as int),
        0 <= r <= FP,
{
    proof {
        lemma_half_wave_range(x as int);
    }
    let num: i64 = 4 * x * (PI_FP - x);
    proof {
        assert(0 <= 4 * x * (PI_FP - x) <= 9_872_164) by (nonlinear_arith)
            requires
                0 <= x <= 3142,
        ;
    }
    ((num as u64) / (QDIV as u64)) as i64
}

impl Beat {
    /// Creates an oscillator.
    pub fn new(interval: i64, scale: i64, kind: BeatKind, ph: i64) -> (r: Beat)
        requires
            1 <= interval <= LIM,
            0 <= scale <= LIM,
            0 <= ph <= LIM,
        ensures
            r.interval == interval,
            r.scale == scale,
            r.kind == kind,
            r.ph == ph,
            wf_beat(r),
    {
        Beat { interval, scale, kind, ph }
    }

    /// The control signal for tick `t`.
    ///
    /// The continuous variant is pure: the sine of `t / interval`, shifted,
    /// scaled and lifted by the floor, and the phase is untouched.  The
    /// intermittent variant is active on every third interval window
    /// (`floor(t / interval) mod 3 == 0`): it advances the phase by
    /// `1 / interval` and returns the continuous formula at `phase * 2 pi`;
    /// in a resting window it parks the phase at [`PH_REST`] and returns
    /// the bare scale, with no oscillation.
    pub fn get(&mut self, t: i64) -> (r: i64)
        requires
            wf_beat(*old(self)),
            0 <= t <= LIM,
        ensures
            final(self).interval == old(self).interval,
            final(self).scale == old(self).scale,
            final(self).kind == old(self).kind,
            final(self).ph == beat_ph_after(*old(self), t as int),
            wf_beat(*final(self)),
            r == beat_output(*old(self), t as int),
            0 <= r <= old(self).scale + FLOOR_OFFSET,
            old(self).kind is Sin ==> FLOOR_OFFSET <= r <= old(self).scale + FLOOR_OFFSET,
    {
        match self.kind {
            BeatKind::Sin => {
                let arg: i64 = muldiv(t, FP, self.interval);
                proof {
                    assert(t * FP >= 0) by (nonlinear_arith)
                        requires
                            t >= 0,
                    ;
                }
                self.sin(arg)
            },
            BeatKind::IntermittentSin => {
                let window: u64 = (t as u64) / (self.interval as u64);
                if window % 3 == 0 {
                    let inc: i64 = ((FP as u64) / (self.interval as u64)) as i64;
                    self.ph = crate::fixed::add_clip(self.ph, inc);
                    let arg: i64 = fpmul(self.ph, TWO_PI_FP);
                    proof {
                        assert(self.ph * TWO_PI_FP >= 0) by (nonlinear_arith)
                            requires
                                self.ph >= 0,
                        ;
                    }
                    self.sin(arg)
                } else {
                    self.ph = PH_REST;
                    self.scale
                }
            },
        }
    }

    /// The continuous formula at angle `x`: `scale * (sin(x) + 1) / 2`
    /// lifted by the floor, so the result never approaches zero.
    fn sin(&self, x: i64) -> (r: i64)
        requires
            wf_beat(*self),
            0 <= x <= LIM,
        ensures
            r == beat_value(self.scale as int, sine_fp_spec(x as int)),
            FLOOR_OFFSET <= r <= self.scale + FLOOR_OFFSET,
    {
        let s: i64 = sine_fp(x);
        proof {
            lemma_beat_value_range(self.scale as int, s as int);
        }
        let scaled: i64 = muldiv(self.scale, s + FP, 2 * FP);
        proof {
            assert(clip(tdiv(self.scale * (s + FP), 2 * FP)) == tdiv(
                self.scale * (s + FP),
                2 * FP,
            )) by {
                assert(0 <= self.scale * (s + FP) <= self.scale * (2 * FP)) by (nonlinear_arith)
                    requires
                        0 <= self.scale,
                        0 <= s + FP <= 2 * FP,
                ;
                vstd::arithmetic::div_mod::lemma_div_is_ordered(
                    self.scale * (s + FP),
                    self.scale * (2 * FP),
                    2 * FP,
                );
                vstd::arithmetic::div_mod::lemma_div_by_multiple(self.scale as int, 2 * FP);
            }
        }
        scaled + FLOOR_OFFSET
    }
}

/// The heart outline: a pre-computed closed curve (handed in once at
/// start-up), a uniform display scale, and the oscillator that drives it.
#[derive(Clone)]
pub struct Heart {
    pub points: Vec<Vec2>,
    pub scale: i64,
    pub beat: Beat,
}

pub open spec fn wf_heart(h: Heart) -> bool {
    &&& forall|i: int| 0 <= i < h.points@.len() ==> wf_vec(#[trigger] h.points@[i])
    &&& 0 <= h.scale <= LIM as int
    &&& wf_beat(h.beat)
}

impl Heart {
    /// A heart over the given outline points, with the default display
    /// scale and the default intermittent oscillator.
    pub fn new(points: Vec<Vec2>) -> (r: Heart)
        requires
            forall|i: int| 0 <= i < points@.len() ==> wf_vec(#[trigger] points@[i]),
        ensures
            r.points == points,
            r.scale == 2500,
            r.beat.interval == 30,
            r.beat.scale == 5000,
            r.beat.kind is IntermittentSin,
            r.beat.ph == 0,
            wf_heart(r),
    {
        Heart {
            points,
            scale: 2500,
            beat: Beat { interval: 30, scale: 5000, kind: BeatKind::IntermittentSin, ph: 0 },
        }
    }

    /// The outline with every point scaled uniformly by the current scale.
    pub fn scaled_points(&self) -> (r: Vec<Vec2>)
        requires
            wf_heart(*self),
        ensures
            r@.len() == self.points@.len(),
            forall|i: int|
                0 <= i < r@.len() ==> {
                    &&& (#[trigger] r@[i]).x == clip(
                        tdiv(self.scale * self.points@[i].x, FP as int),
                    )
                    &&& r@[i].y == clip(tdiv(self.scale * self.points@[i].y, FP as int))
                },
    {
        let mut out: Vec<Vec2> = Vec::new();
        let n: usize = self.points.len();
        let mut i: usize = 0;
        while i < n
            invariant
                i <= n,
                n == self.points@.len(),
                wf_heart(*self),
                out@.len() == i,
                forall|k: int|
                    0 <= k < i ==> {
                        &&& (#[trigger] out@[k]).x == clip(
                            tdiv(self.scale * self.points@[k].x, FP as int),
                        )
                        &&& out@[k].y == clip(tdiv(self.scale * self.points@[k].y, FP as int))
                    },
            decreases n - i,
        {
            let p: Vec2 = self.points[i];
            out.push(Vec2 { x: fpmul(self.scale, p.x), y: fpmul(self.scale, p.y) });
            i = i + 1;
        }
        out
    }
}

} // verus!

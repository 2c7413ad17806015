use bleeding_heart::heart::Beat;
use bleeding_heart::heart::BeatKind;
use bleeding_heart::heart::FLOOR_OFFSET;
use bleeding_heart::heart::Heart;
use bleeding_heart::heart::PH_REST;
use bleeding_heart::heart::sine_fp;
use bleeding_heart::fixed::Vec2;

#[test]
fn sine_fixed_point_landmarks() {
    // quarter turn: 4 * 1571 * (3142 - 1571) / 9872 = 1000
    assert_eq!(sine_fp(0), 0);
    assert_eq!(sine_fp(1571), 1000);
    assert_eq!(sine_fp(3142), 0);
    // three-quarter turn: the negative half-wave
    assert_eq!(sine_fp(1571 + 3142), -1000);
    assert_eq!(sine_fp(6284), 0);
    // one full turn later, the same value
    assert_eq!(sine_fp(1571 + 6284), 1000);
}

#[test]
fn sine_stays_in_unit_band() {
    let mut x: i64 = 0;
    while x < 20000 {
        let s = sine_fp(x);
        assert!(-1000 <= s && s <= 1000);
        x += 7;
    }
}

#[test]
fn continuous_beat_at_tick_zero() {
    let mut b = Beat::new(30, 5000, BeatKind::Sin, 0);
    // sin(0) = 0: value = 5000 * (0 + 1000) / 2000 + 100 = 2600
    assert_eq!(b.get(0), 2600);
    assert_eq!(b.ph, 0);
}

#[test]
fn continuous_beat_never_below_floor() {
    // Oscillator floor law on concrete ticks, including 0 and large ones.
    let mut b = Beat::new(30, 5000, BeatKind::Sin, 0);
    for t in 0..2000i64 {
        let v = b.get(t);
        assert!(v >= FLOOR_OFFSET);
        assert!(v <= 5000 + FLOOR_OFFSET);
    }
    let v = b.get(999_999_999);
    assert!(v >= FLOOR_OFFSET);
}

#[test]
fn intermittent_rest_returns_bare_scale() {
    // Window index floor(t / 30) mod 3: windows 1 and 2 rest.
    let mut b = Beat::new(30, 5000, BeatKind::IntermittentSin, 0);
    for t in 30..90i64 {
        assert_eq!(b.get(t), 5000);
        assert_eq!(b.ph, PH_REST);
    }
}

#[test]
fn intermittent_active_window_oscillates() {
    let mut b = Beat::new(30, 5000, BeatKind::IntermittentSin, PH_REST);
    // t = 0 is in an active window: ph 250 -> 283, angle
    // 283 * 6284 / 1000 = 1778, sine 982, value 5000*1982/2000+100 = 5055
    assert_eq!(b.get(0), 5055);
    assert_eq!(b.ph, 283);
}

#[test]
fn intermittent_pattern_repeats_every_three_intervals() {
    // Rhythm period law on concrete ticks: activity at t equals activity
    // at t + 90 for interval 30.
    let active = |t: i64| (t / 30) % 3 == 0;
    for t in 0..400i64 {
        assert_eq!(active(t), active(t + 90));
        let mut b = Beat::new(30, 5000, BeatKind::IntermittentSin, 400);
        let v = b.get(t);
        if !active(t) {
            assert_eq!(v, 5000);
            assert_eq!(b.ph, PH_REST);
        } else {
            assert_ne!(b.ph, 400);
        }
    }
}

#[test]
fn heart_scales_outline_uniformly() {
    let points = vec![Vec2 { x: 16000, y: 13000 }, Vec2 { x: -2000, y: 500 }, Vec2 { x: 0, y: 0 }];
    let h = Heart::new(points);
    assert_eq!(h.scale, 2500);
    let s = h.scaled_points();
    assert_eq!(s.len(), 3);
    assert_eq!(s[0], Vec2 { x: 40000, y: 32500 });
    assert_eq!(s[1], Vec2 { x: -5000, y: 1250 });
    assert_eq!(s[2], Vec2 { x: 0, y: 0 });
}

use bleeding_heart::fixed::Rect;
use bleeding_heart::fixed::Vec2;
use bleeding_heart::particle::Particle;

fn rect(left: i64, right: i64, bottom: i64, top: i64) -> Rect {
    Rect { left, right, bottom, top }
}

#[test]
fn new_fills_fields_and_defaults_velocity() {
    let p = Particle::new(1500, 10, -20, 100, None);
    assert_eq!(p.mass, 1500);
    assert_eq!(p.position, Vec2 { x: 10, y: -20 });
    assert_eq!(p.velocity, Vec2 { x: -1000, y: 1000 });
    assert_eq!(p.acceleration, Vec2 { x: 0, y: 0 });
    assert_eq!(p.lifetime, 100);
    let q = Particle::new(1, 0, 0, 0, Some(Vec2 { x: 7, y: -7 }));
    assert_eq!(q.velocity, Vec2 { x: 7, y: -7 });
}

#[test]
fn try_new_rejects_bad_mass() {
    assert!(Particle::try_new(0, 0, 0, 10, None).is_none());
    assert!(Particle::try_new(-5, 0, 0, 10, None).is_none());
    assert!(Particle::try_new(1, 0, 0, -1, None).is_none());
    assert!(Particle::try_new(1000, 0, 0, 10, None).is_some());
}

#[test]
fn update_integrates_one_euler_step() {
    let mut p = Particle::new(1000, 100, 200, 10, Some(Vec2 { x: 30, y: -40 }));
    p.acceleration = Vec2 { x: 5, y: 10 };
    p.update();
    assert_eq!(p.velocity, Vec2 { x: 35, y: -30 });
    assert_eq!(p.position, Vec2 { x: 135, y: 170 });
    assert_eq!(p.acceleration, Vec2 { x: 0, y: 0 });
    assert_eq!(p.lifetime, 9);
}

#[test]
fn particle_at_rest_stays_in_place() {
    // Integration law: zero velocity, zero accumulated force -- the
    // position is unchanged after any number of ticks.
    let mut p = Particle::new(1000, 12345, -6789, 1_000_000, Some(Vec2 { x: 0, y: 0 }));
    for _ in 0..1000 {
        p.update();
        assert_eq!(p.position, Vec2 { x: 12345, y: -6789 });
        assert_eq!(p.velocity, Vec2 { x: 0, y: 0 });
    }
}

#[test]
fn apply_force_divides_by_mass() {
    let mut p = Particle::new(2000, 0, 0, 10, Some(Vec2 { x: 0, y: 0 }));
    p.apply_force(Vec2 { x: 1000, y: -500 });
    assert_eq!(p.acceleration, Vec2 { x: 500, y: -250 });
    p.apply_force(Vec2 { x: 1000, y: 0 });
    assert_eq!(p.acceleration, Vec2 { x: 1000, y: -250 });
}

#[test]
fn clamp_to_bounds_pins_and_bounces() {
    let r = rect(-100, 100, -50, 50);
    let mut p = Particle::new(1000, -150, 0, 10, Some(Vec2 { x: -3000, y: 7 }));
    p.clamp_to_bounds(r);
    assert_eq!(p.position, Vec2 { x: -100, y: 0 });
    // bounce: velocity inverted and damped by 0.01
    assert_eq!(p.velocity, Vec2 { x: 30, y: 7 });

    let mut q = Particle::new(1000, 40, 120, 10, Some(Vec2 { x: 5, y: 2000 }));
    q.clamp_to_bounds(r);
    assert_eq!(q.position, Vec2 { x: 40, y: 50 });
    assert_eq!(q.velocity, Vec2 { x: 5, y: -20 });

    let mut inside = Particle::new(1000, 10, -10, 10, Some(Vec2 { x: 1, y: 2 }));
    inside.clamp_to_bounds(r);
    assert_eq!(inside.position, Vec2 { x: 10, y: -10 });
    assert_eq!(inside.velocity, Vec2 { x: 1, y: 2 });
}

#[test]
fn repel_inverse_square_at_close_range() {
    // Two unit masses 5 fixed-point units apart: distance 5000, clamped
    // distance 5000, strength 1e9 / 25e6 = 40, force 20 along the axis.
    let a = Particle::new(1000, 0, 0, 10, None);
    let b = Particle::new(1000, 5000, 0, 10, None);
    let f_on_b = a.repel(&b);
    assert_eq!(f_on_b, Vec2 { x: 20, y: 0 });
    let f_on_a = b.repel(&a);
    assert_eq!(f_on_a, Vec2 { x: -20, y: 0 });
}

#[test]
fn repel_clamps_tiny_distances() {
    // Distance 1000 is below the 5000 floor: strength still uses 5000,
    // but the direction uses the true distance.
    let a = Particle::new(1000, 0, 0, 10, None);
    let b = Particle::new(1000, 1000, 0, 10, None);
    let f_on_b = a.repel(&b);
    // strength 40, component: 1000 * 40 / (2 * 1000) = 20
    assert_eq!(f_on_b, Vec2 { x: 20, y: 0 });
}

#[test]
fn repel_vanishes_beyond_cutoff() {
    let a = Particle::new(1000, 0, 0, 10, None);
    let b = Particle::new(1000, 20000, 0, 10, None);
    assert_eq!(a.repel(&b), Vec2 { x: 0, y: 0 });
    assert_eq!(b.repel(&a), Vec2 { x: 0, y: 0 });
}

#[test]
fn repel_coincident_positions_is_zero() {
    let a = Particle::new(1000, 77, 88, 10, None);
    let b = Particle::new(2000, 77, 88, 10, None);
    assert_eq!(a.repel(&b), Vec2 { x: 0, y: 0 });
}

#[test]
fn repel_symmetry_on_a_grid() {
    // Repulsion symmetry law on concrete values: equal magnitude,
    // opposite direction, exactly.
    let masses = [500i64, 1000, 2500];
    let offsets = [-7000i64, -3000, -800, 900, 4000, 8000];
    for &ma in masses.iter() {
        for &mb in masses.iter() {
            for &dx in offsets.iter() {
                for &dy in offsets.iter() {
                    let a = Particle::new(ma, 0, 0, 10, None);
                    let b = Particle::new(mb, dx, dy, 10, None);
                    let fab = a.repel(&b);
                    let fba = b.repel(&a);
                    assert_eq!(fab.x, -fba.x);
                    assert_eq!(fab.y, -fba.y);
                }
            }
        }
    }
}

#[test]
fn gravity_scales_with_mass() {
    let p = Particle::new(1500, 0, 0, 10, None);
    assert_eq!(p.gravity(), Vec2 { x: 0, y: -15 });
    let q = Particle::new(50, 0, 0, 10, None);
    // 50 * 10 / 1000 rounds to zero: sub-unit masses feel no pull
    assert_eq!(q.gravity(), Vec2 { x: 0, y: 0 });
}

#[test]
fn opacity_is_remaining_share() {
    let mut p = Particle::new(1000, 0, 0, 100_000, None);
    assert_eq!(p.opacity(), 1000);
    p.lifetime = 50_000;
    assert_eq!(p.opacity(), 500);
    p.lifetime = 0;
    assert_eq!(p.opacity(), 0);
}

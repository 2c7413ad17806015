use bleeding_heart::fixed::Rect;
use bleeding_heart::fixed::Vec2;
use bleeding_heart::particle::Particle;
use bleeding_heart::source::LIFETIMES;
use bleeding_heart::system::ParticleSystem;

fn bounds() -> Rect {
    Rect { left: -500_000, right: 500_000, bottom: -400_000, top: 400_000 }
}

fn spawn_rect() -> Rect {
    Rect { left: -30_000, right: 30_000, bottom: -30_000, top: 30_000 }
}

#[test]
fn end_to_end_emission_then_decay() {
    // One emitter with certain probability, a fixed seed and no initial
    // particles: after exactly one tick the particle count equals the
    // number of emission attempts.
    let mut sys = ParticleSystem::new(bounds(), 42);
    sys.add_source(spawn_rect());
    assert_eq!(sys.particles.len(), 0);
    sys.step();
    assert_eq!(sys.particles.len(), 10);
    for p in sys.particles.iter() {
        assert_eq!(p.lifetime, LIFETIMES);
        assert_eq!(p.mass, 1500);
    }
    // With the probability pulled to zero nothing more is emitted, and
    // every survivor has aged by exactly one tick per step.
    sys.modulate_source(0, 1000, 1000, 0);
    sys.step();
    assert_eq!(sys.particles.len(), 10);
    for p in sys.particles.iter() {
        assert_eq!(p.lifetime, LIFETIMES - 1);
    }
    sys.step();
    assert_eq!(sys.particles.len(), 10);
    for p in sys.particles.iter() {
        assert_eq!(p.lifetime, LIFETIMES - 2);
    }
}

#[test]
fn lifetime_counts_down_to_removal() {
    // A particle with initial lifetime L is present for fewer than L
    // ticks and absent after exactly L ticks.
    let mut sys = ParticleSystem::new(bounds(), 1);
    let p = Particle::new(1000, 0, 0, 3, Some(Vec2 { x: 0, y: 0 }));
    sys.particles.push(p);
    sys.step();
    assert_eq!(sys.particles.len(), 1);
    assert_eq!(sys.particles[0].lifetime, 2);
    sys.step();
    assert_eq!(sys.particles.len(), 1);
    assert_eq!(sys.particles[0].lifetime, 1);
    sys.step();
    assert_eq!(sys.particles.len(), 0);
}

#[test]
fn survivors_stay_inside_bounds() {
    // Boundary containment: whatever the starting state, after a tick
    // every surviving particle lies inside the bounding rectangle.
    let mut sys = ParticleSystem::new(bounds(), 7);
    sys.particles.push(Particle::new(1000, 499_999, 399_999, 50, Some(Vec2 { x: 90_000, y: 90_000 })));
    sys.particles.push(Particle::new(1000, -499_999, -399_999, 50, Some(Vec2 { x: -90_000, y: -90_000 })));
    sys.particles.push(Particle::new(2000, 0, 0, 50, Some(Vec2 { x: 123, y: -456 })));
    for _ in 0..20 {
        sys.step();
        let r = sys.extent;
        for p in sys.particles.iter() {
            assert!(r.left <= p.position.x && p.position.x <= r.right);
            assert!(r.bottom <= p.position.y && p.position.y <= r.top);
        }
    }
}

#[test]
fn resize_updates_the_bounds() {
    let mut sys = ParticleSystem::new(bounds(), 3);
    sys.particles.push(Particle::new(1000, 400_000, 300_000, 50, Some(Vec2 { x: 0, y: 0 })));
    let smaller = Rect { left: -10_000, right: 10_000, bottom: -10_000, top: 10_000 };
    sys.set_extent(smaller);
    sys.step();
    for p in sys.particles.iter() {
        assert!(smaller.left <= p.position.x && p.position.x <= smaller.right);
        assert!(smaller.bottom <= p.position.y && p.position.y <= smaller.top);
    }
}

#[test]
fn gravity_pulls_particles_down() {
    let mut sys = ParticleSystem::new(bounds(), 9);
    sys.particles.push(Particle::new(2000, 0, 0, 100, Some(Vec2 { x: 0, y: 0 })));
    sys.step();
    // one particle: no repulsion; gravity 2000*10/1000 = 20, acceleration
    // 20*1000/2000 = 10 downward, so velocity and position fall by 10.
    assert_eq!(sys.particles[0].velocity, Vec2 { x: 0, y: -10 });
    assert_eq!(sys.particles[0].position, Vec2 { x: 0, y: -10 });
    sys.step();
    assert_eq!(sys.particles[0].velocity, Vec2 { x: 0, y: -20 });
    assert_eq!(sys.particles[0].position, Vec2 { x: 0, y: -30 });
}

#[test]
fn pair_repels_along_their_axis() {
    let mut sys = ParticleSystem::new(bounds(), 9);
    sys.particles.push(Particle::new(100, -2500, 0, 100, Some(Vec2 { x: 0, y: 0 })));
    sys.particles.push(Particle::new(100, 2500, 0, 100, Some(Vec2 { x: 0, y: 0 })));
    sys.step();
    // masses 0.1: gravity rounds to zero; distance 5000, strength
    // 100*100*1000/25e6 = 0 -- sub-unit masses, no measurable force.
    // Use the positions to check that nothing drifted x-ward.
    assert_eq!(sys.particles[0].position.x, -2500);
    assert_eq!(sys.particles[1].position.x, 2500);

    let mut sys2 = ParticleSystem::new(bounds(), 9);
    sys2.particles.push(Particle::new(10_000, -2500, 0, 100, Some(Vec2 { x: 0, y: 0 })));
    sys2.particles.push(Particle::new(10_000, 2500, 0, 100, Some(Vec2 { x: 0, y: 0 })));
    sys2.step();
    // strength 10000*10000*1000/25e6 = 4000, component 5000*4000/(2*5000)
    // = 2000, acceleration 2000*1000/10000 = 200: the pair moves apart
    // symmetrically (gravity adds -100 to each y).
    assert_eq!(sys2.particles[0].position.x, -2700);
    assert_eq!(sys2.particles[1].position.x, 2700);
    assert_eq!(sys2.particles[0].position.y, sys2.particles[1].position.y);
}

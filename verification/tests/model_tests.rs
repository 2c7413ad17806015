use bleeding_heart::fixed::Rect;
use bleeding_heart::fixed::Vec2;
use bleeding_heart::heart::Heart;
use bleeding_heart::model::Model;
use bleeding_heart::system::ParticleSystem;

fn build_model(seed: u64) -> Model {
    let points = vec![
        Vec2 { x: 16000, y: 13000 },
        Vec2 { x: 0, y: -17000 },
        Vec2 { x: -16000, y: 13000 },
    ];
    let heart = Heart::new(points);
    let bounds = Rect { left: -500_000, right: 500_000, bottom: -400_000, top: 400_000 };
    let spawn = Rect { left: -30_000, right: 30_000, bottom: -30_000, top: 30_000 };
    let mut sys = ParticleSystem::new(bounds, seed);
    sys.add_source(spawn);
    Model::new(heart, sys)
}

#[test]
fn first_frame_drives_heart_and_emitter() {
    let mut m = build_model(42);
    m.step();
    assert_eq!(m.t, 1);
    // tick 1 is in an active window: ph 0 -> 33, angle 33*6284/1000 = 207,
    // sine 246, beat 5000*1246/2000+100 = 3215, heart scale 20000+3215.
    assert_eq!(m.heart.beat.ph, 33);
    assert_eq!(m.heart.scale, 23215);
    // feedback: |250-33| = 217 > 200, drive 1000-217 = 783
    let md = m.particle_system.sources[0].modulation;
    assert_eq!(md.size, 1283);
    assert_eq!(md.speed, 783);
    assert_eq!(md.probability, 783);
    assert!(m.particle_system.particles.len() <= 10);
}

#[test]
fn resting_window_stops_emission() {
    // run into the first resting window (ticks 30..59)
    let mut m = build_model(7);
    for _ in 0..30 {
        m.step();
    }
    // at tick 30 the oscillator rests: phase parks at 250, drive is 0,
    // so the emitter's probability is 0.
    assert_eq!(m.heart.beat.ph, 250);
    assert_eq!(m.particle_system.sources[0].modulation.probability, 0);
    assert_eq!(m.heart.scale, 20000 + 5000);
}

#[test]
fn ticks_accumulate_and_population_is_bounded() {
    let mut m = build_model(99);
    for _ in 0..60 {
        m.step();
        // one emitter, ten attempts per tick: the population can grow by
        // at most ten per tick, and nothing dies young here.
        assert!(m.particle_system.particles.len() <= 10 * m.t as usize);
        let r = m.particle_system.extent;
        for p in m.particle_system.particles.iter() {
            assert!(r.left <= p.position.x && p.position.x <= r.right);
            assert!(r.bottom <= p.position.y && p.position.y <= r.top);
        }
    }
    assert_eq!(m.t, 60);
}

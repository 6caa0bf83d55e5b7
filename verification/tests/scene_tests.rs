use fireworks::draws::random_draw;
use fireworks::particle::{Particle, Spawn, Tick};
use fireworks::scene::{advance, background, in_order, initialize, initialize_from, update, view};
use fireworks::units::{Circle, Color, Point};

fn spawn(n: i64) -> Spawn {
    Spawn { x: 100 * n, y: 10 * n, red: n, green: 2 * n, blue: 3 * n, drift: 500, climb: 0 }
}

fn quiet_tick(now: u64) -> Tick {
    Tick {
        now,
        inward: 0,
        chance: 999,
        kicks: vec![Point { x: 500, y: 500 }; 20],
        fades: vec![0; 20],
        respawn: spawn(9),
    }
}

#[test]
fn random_draws_are_draws_and_vary() {
    let draws: Vec<i64> = (0..400).map(|_| random_draw()).collect();
    assert!(draws.iter().all(|d| 0 <= *d && *d < 1000));
    assert!(draws.iter().any(|d| *d != 0));
    assert!(draws.iter().any(|d| *d != draws[0]));
}

#[test]
fn random_tick_has_a_set_of_draws_for_each_fragment() {
    let t = Tick::random(77);
    assert_eq!(t.now, 77);
    assert_eq!(t.kicks.len(), 20);
    assert_eq!(t.fades.len(), 20);
    assert!(0 <= t.inward && t.inward < 1000 && 0 <= t.chance && t.chance < 1000);
    assert!(t.kicks.iter().all(|k| 0 <= k.x && k.x < 1000 && 0 <= k.y && k.y < 1000));
    assert!(t.fades.iter().all(|f| 0 <= *f && *f < 1000));
    let s = Spawn::random();
    for d in [s.x, s.y, s.red, s.green, s.blue, s.drift, s.climb] {
        assert!(0 <= d && d < 1000);
    }
}

#[test]
fn background_is_dark_and_opaque() {
    assert_eq!(background(), Color { red: 100, green: 100, blue: 130, alpha: 1000 });
}

#[test]
fn initialize_makes_six_rising_bodies() {
    let state = initialize();
    assert_eq!(state.particles.len(), 6);
    for p in state.particles.iter() {
        assert!(p.exploded_at.is_none() && p.particles.is_none() && p.trail.is_empty());
    }
    let spawns: Vec<Spawn> = (0..6).map(spawn).collect();
    let state = initialize_from(&spawns);
    assert_eq!(state.particles.len(), 6);
    for (i, p) in state.particles.iter().enumerate() {
        let n = i as i64;
        assert_eq!(p.position, Point { x: -500_000 + 100_000 * n, y: -500_000 + 1_000 * n });
        assert_eq!(p.color, Color { red: n, green: 2 * n, blue: 3 * n, alpha: 1000 });
    }
}

#[test]
fn advance_moves_every_particle_by_its_own_tick() {
    let spawns: Vec<Spawn> = (0..6).map(spawn).collect();
    let mut state = initialize_from(&spawns);
    let mut ticks: Vec<Tick> = (0..6).map(|_| quiet_tick(5)).collect();
    ticks[3].inward = 999;
    advance(&mut state, &ticks);
    for (i, p) in state.particles.iter().enumerate() {
        let n = i as i64;
        assert_eq!(p.position, Point { x: -500_000 + 100_000 * n, y: -492_500 + 1_000 * n });
        // 7500 * 7500 * 999 * 2 / 10^9 = 112
        assert_eq!(p.direction_vec.x, if i == 3 { 112 } else { 0 });
        assert_eq!(p.trail.len(), 1);
    }
}

#[test]
fn view_paints_tails_before_bodies_particle_by_particle() {
    let spawns: Vec<Spawn> = (0..6).map(spawn).collect();
    let mut state = initialize_from(&spawns);
    let first = view(&state);
    assert_eq!(first.len(), 6);
    for (i, c) in first.iter().enumerate() {
        assert_eq!(c.center, state.particles[i].position);
        assert_eq!(c.radius, 5_000);
        assert_eq!(c.color, state.particles[i].color);
    }
    for n in 0..3 {
        let ticks: Vec<Tick> = (0..6).map(|_| quiet_tick(n)).collect();
        advance(&mut state, &ticks);
    }
    let circles = view(&state);
    assert_eq!(circles.len(), 6 * 4);
    for (i, p) in state.particles.iter().enumerate() {
        for ix in 0..3 {
            let c = circles[4 * i + ix];
            assert_eq!(c.center, p.trail[ix].position);
            assert_eq!(c.radius, 500 * ix as i64);
            assert_eq!(c.color.alpha, 800);
            assert_eq!(c.color.red, p.color.red);
        }
        assert_eq!(
            circles[4 * i + 3],
            Circle { center: p.position, radius: 5_000, color: p.color }
        );
    }
}

#[test]
fn in_order_tells_a_sound_display_from_a_broken_one() {
    let mut state = initialize();
    assert!(in_order(&state));
    state.particles[2].color.alpha = 1001;
    assert!(!in_order(&state));
    state.particles[2].color.alpha = 1000;
    assert!(in_order(&state));
    state.particles.pop();
    assert!(!in_order(&state));
}

#[test]
fn in_order_tells_a_sound_particle_from_a_broken_one() {
    let mut p = Particle::from_spawn(&spawn(1));
    assert!(p.in_order());
    assert!(p.fragment_in_order());
    p.exploded_at = Some(3);
    assert!(!p.in_order());
    p.exploded_at = None;
    p.direction_vec.y = 0;
    assert!(!p.in_order());
    p.direction_vec.y = 15_001;
    assert!(!p.in_order());
    p.direction_vec.y = 15_000;
    assert!(p.in_order());
    p.position.y = 400_000;
    p.advance(&quiet_tick(0));
    assert!(p.in_order());
    assert!(!p.fragment_in_order());
    p.particles.as_mut().unwrap().pop();
    assert!(!p.in_order());
    let mut q = Particle::from_spawn(&spawn(1));
    q.position.y = 400_000;
    q.advance(&quiet_tick(0));
    q.particles.as_mut().unwrap()[7].color.red = -1;
    assert!(!q.in_order());
    assert!(!Color { red: 0, green: 0, blue: 1001, alpha: 0 }.in_range());
    assert!(Color { red: 0, green: 1000, blue: 0, alpha: 0 }.in_range());
}

#[test]
fn burst_is_painted_fragment_by_fragment() {
    let mut p = Particle::from_spawn(&spawn(2));
    p.position.y = 400_000;
    p.advance(&quiet_tick(0));
    assert_eq!(p.draw().len(), 20);
    p.advance(&quiet_tick(1));
    p.advance(&quiet_tick(2));
    p.advance(&quiet_tick(3));
    let circles = p.draw();
    assert_eq!(circles.len(), 20 * 3);
    let fragments = p.particles.as_ref().unwrap();
    for (i, f) in fragments.iter().enumerate() {
        assert_eq!(circles[3 * i].center, f.trail[0].position);
        assert_eq!(circles[3 * i].radius, 0);
        assert_eq!(circles[3 * i + 1].center, f.trail[1].position);
        assert_eq!(circles[3 * i + 1].radius, 500);
        assert_eq!(circles[3 * i + 1].color.alpha, 800);
        assert_eq!(circles[3 * i + 2], Circle { center: f.position, radius: 3_000, color: f.color });
    }
}

#[test]
fn update_with_fresh_draws_keeps_six_particles_in_order() {
    let mut state = initialize();
    let mut now: u64 = 0;
    for _ in 0..600 {
        update(&mut state, now);
        now += 16_000_000;
        assert_eq!(state.particles.len(), 6);
        for p in state.particles.iter() {
            assert!(p.trail.len() <= 10);
            assert_eq!(p.exploded_at.is_some(), p.particles.is_some());
            if let Some(fragments) = &p.particles {
                assert_eq!(fragments.len(), 20);
            }
        }
        assert!(!view(&state).is_empty());
    }
}

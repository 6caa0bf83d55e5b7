use fireworks::particle::{push_sample, spread_draw, Particle, Spawn};
use fireworks::trail::{scale, TrailParticle};
use fireworks::units::{
    add_clamped, seconds_between, sub_clamped, Circle, Color, Point,
};

#[test]
fn scale_is_half_the_rank() {
    assert_eq!(scale(10, 0), 0);
    assert_eq!(scale(10, 4), 2_000);
    assert_eq!(scale(10, 10), 5_000);
    assert_eq!(scale(255, 9), 4_500);
    assert_eq!(scale(1, 1), 500);
}

#[test]
fn snapshot_copies_position_and_colour() {
    let mut p = Particle::from_spawn(&Spawn {
        x: 10,
        y: 20,
        red: 30,
        green: 40,
        blue: 50,
        drift: 60,
        climb: 70,
    });
    p.color.alpha = 640;
    let s = TrailParticle::new(&p);
    assert_eq!(s.position, p.position);
    assert_eq!(s.color, Color { red: 30, green: 40, blue: 50, alpha: 640 });
}

#[test]
fn snapshot_circle_grows_with_rank_and_keeps_the_alpha_floor() {
    let s = TrailParticle {
        position: Point { x: 7, y: -9 },
        color: Color { red: 1, green: 2, blue: 3, alpha: 4 },
    };
    assert_eq!(
        s.draw(10, 0),
        Circle {
            center: Point { x: 7, y: -9 },
            radius: 0,
            color: Color { red: 1, green: 2, blue: 3, alpha: 800 },
        }
    );
    assert_eq!(s.draw(10, 9).radius, 4_500);
    assert_eq!(s.draw(2, 1).radius, 500);
    for ix in 0..=255usize {
        let c = s.draw(300, ix);
        assert_eq!(c.color.alpha, 800);
        assert_eq!(c.radius, 500 * ix as i64);
    }
}

#[test]
fn clamped_arithmetic_stops_at_the_ends() {
    assert_eq!(add_clamped(1, 2), 3);
    assert_eq!(add_clamped(i64::MAX, 1), i64::MAX);
    assert_eq!(add_clamped(i64::MIN, -1), i64::MIN);
    assert_eq!(add_clamped(i64::MIN, i64::MAX), -1);
    assert_eq!(sub_clamped(5, 7), -2);
    assert_eq!(sub_clamped(i64::MIN, 1), i64::MIN);
    assert_eq!(sub_clamped(i64::MAX, -1), i64::MAX);
    assert_eq!(sub_clamped(0, i64::MIN), i64::MAX);
    assert_eq!(sub_clamped(-1, i64::MIN), i64::MAX);
}

#[test]
fn seconds_between_counts_whole_seconds() {
    assert_eq!(seconds_between(0, 999_999_999), 0);
    assert_eq!(seconds_between(0, 1_000_000_000), 1);
    assert_eq!(seconds_between(500, 5_000_000_499), 4);
    assert_eq!(seconds_between(500, 5_000_000_500), 5);
    assert_eq!(seconds_between(10, 3), 0);
}

#[test]
fn push_sample_evicts_the_oldest_beyond_capacity() {
    let at = |n: i64| TrailParticle {
        position: Point { x: n, y: -n },
        color: Color { red: 0, green: 0, blue: 0, alpha: 1000 },
    };
    let empty: Vec<TrailParticle> = Vec::new();
    assert_eq!(push_sample(&empty, at(1), 2), vec![at(1)]);
    assert_eq!(push_sample(&vec![at(1)], at(2), 2), vec![at(1), at(2)]);
    assert_eq!(push_sample(&vec![at(1), at(2)], at(3), 2), vec![at(2), at(3)]);
    assert_eq!(push_sample(&vec![at(1), at(2)], at(3), 3), vec![at(1), at(2), at(3)]);
    assert_eq!(push_sample(&vec![at(1), at(2), at(3)], at(4), 1), vec![at(2), at(3), at(4)]);
}

#[test]
fn spread_draw_maps_a_draw_into_the_band() {
    assert_eq!(spread_draw(-1_500, 1_500, 0), -1_500);
    assert_eq!(spread_draw(-1_500, 1_500, 500), 0);
    assert_eq!(spread_draw(-1_500, 1_500, 999), 1_497);
    assert_eq!(spread_draw(-1_000, 800, 999), 798);
    assert_eq!(spread_draw(500, 1_000, 1), 500);
    assert_eq!(spread_draw(7, 7, 999), 7);
}

#[test]
fn drifted_fragment_matches_the_formulas() {
    let mut p = Particle::from_spawn(&Spawn {
        x: 0,
        y: 0,
        red: 0,
        green: 0,
        blue: 0,
        drift: 0,
        climb: 0,
    });
    p.color.alpha = 30;
    p.direction_vec = Point { x: 50, y: -20 };
    let q = p.drifted(300, 999);
    assert_eq!(q.position, Point { x: -499_950, y: -500_020 });
    assert_eq!(q.direction_vec, Point { x: -40, y: -320 });
    assert_eq!(q.color.alpha, 0);
    assert_eq!(q.trail.len(), 1);
    assert_eq!(q.trail[0].color.alpha, 30);
    let r = p.drifted(100, 200);
    assert_eq!(r.color.alpha, 20);
    assert_eq!(r.direction_vec, Point { x: 40, y: -120 });
}

//! Random draws, taken from nannou's thread-local generator and gathered
//! into the sets that particles consume.

use vstd::prelude::*;
use crate::units::{is_draw, Point, UNIT};
use crate::particle::{valid_kicks, Spawn, Tick, FRAGMENTS};

verus! {

/// Calls `nannou::rand::random_range`, which hands back a value of the
/// half-open range from `min` to `max`: `min` may come, `max` never does.
/// Nothing more is known of the value. An empty range is left out, since the
/// generator does not accept one.
#[verifier::external_body]
fn random_between(min: i64, max: i64) -> (value: i64)
    requires
        min < max,
    ensures
        min <= value < max,
{
    nannou::rand::random_range(min, max)
}

/// One fresh draw.
pub fn random_draw() -> (draw: i64)
    ensures
        is_draw(draw),
{
    random_between(0, UNIT)
}

impl Spawn {
    /// Fresh draws for a new body.
    pub fn random() -> (spawn: Spawn)
        ensures
            spawn.valid(),
    {
        Spawn {
            x: random_draw(),
            y: random_draw(),
            red: random_draw(),
            green: random_draw(),
            blue: random_draw(),
            drift: random_draw(),
            climb: random_draw(),
        }
    }
}

impl Tick {
    /// Fresh draws for one update at clock reading `now`.
    pub fn random(now: u64) -> (tick: Tick)
        ensures
            tick.valid(),
            tick.now == now,
    {
        let inward: i64 = random_draw();
        let chance: i64 = random_draw();
        let mut kicks: Vec<Point> = Vec::new();
        let mut fades: Vec<i64> = Vec::new();
        let mut i: usize = 0;
        while i < FRAGMENTS
            invariant
                i <= FRAGMENTS,
                kicks@.len() == i,
                fades@.len() == i,
                forall|j: int| 0 <= j < i ==> is_draw(#[trigger] kicks@[j].x) && is_draw(kicks@[j].y),
                forall|j: int| 0 <= j < i ==> is_draw(#[trigger] fades@[j]),
            decreases FRAGMENTS - i,
        {
            kicks.push(Point { x: random_draw(), y: random_draw() });
            fades.push(random_draw());
            i += 1;
        }
        assert(valid_kicks(kicks@));
        Tick { now, inward, chance, kicks, fades, respawn: Spawn::random() }
    }
}

} // verus!

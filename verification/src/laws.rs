//! What holds of every particle, whatever the clock and the draws.

use vstd::prelude::*;
use crate::units::{elapsed_secs, is_draw, NANOS_PER_SEC, UNIT};
use crate::particle::{
    burst, drift, drift_each, fall, spawned, speed_decay, step, valid, valid_body, Body, Model,
    Spawn, Tick, FRAGMENTS, FRAGMENT_TRAIL_CAPACITY, MAX_AGE_SECS, MAX_CLIMB, RAND_EXPLOSION_END,
    TRAIL_CAPACITY,
};

verus! {

/// The particle after the updates `ticks`, taken in order.
pub open spec fn run(m: Model, ticks: Seq<Tick>) -> Model
    decreases ticks.len(),
{
    if ticks.len() == 0 {
        m
    } else {
        step(run(m, ticks.drop_last()), ticks.last())
    }
}

/// An update leaves a particle in order: rising or burst, never in between.
pub proof fn lemma_step_keeps_valid(m: Model, tick: Tick)
    requires
        valid(m),
        tick.valid(),
    ensures
        valid(step(m, tick)),
{
    lemma_spawned_is_valid(tick.respawn);
    match (m.exploded_at, m.fragments) {
        (None, _) => {
            let body = fall(m.body, tick.inward as int);
            assert(valid_body(body, TRAIL_CAPACITY as int));
            let pieces = burst(body.position, body.color, tick.kicks@);
            assert forall|i: int| 0 <= i < pieces.len() implies valid_body(
                #[trigger] pieces[i],
                FRAGMENT_TRAIL_CAPACITY as int,
            ) by {}
        },
        (Some(since), Some(fragments)) => {
            let decay = speed_decay(elapsed_secs(since, tick.now));
            let next = drift_each(fragments, decay, tick.fades@);
            assert forall|i: int| 0 <= i < next.len() implies valid_body(
                #[trigger] next[i],
                FRAGMENT_TRAIL_CAPACITY as int,
            ) by {
                assert(valid_body(fragments[i], FRAGMENT_TRAIL_CAPACITY as int));
                assert(is_draw(tick.fades@[i]));
                lemma_drift_keeps_valid(fragments[i], decay, tick.fades@[i] as int);
            }
        },
        _ => {},
    }
}

/// A new body is in order: it climbs, and no faster than `MAX_CLIMB`.
pub proof fn lemma_spawned_is_valid(s: Spawn)
    requires
        s.valid(),
    ensures
        valid(spawned(s)),
        7_500 <= spawned(s).body.velocity.y <= MAX_CLIMB,
{
}

/// A drifting fragment stays in order and never gains opacity.
pub proof fn lemma_drift_keeps_valid(b: Body, decay: int, fade_draw: int)
    requires
        valid_body(b, FRAGMENT_TRAIL_CAPACITY as int),
        0 <= fade_draw < UNIT,
    ensures
        valid_body(drift(b, decay, fade_draw), FRAGMENT_TRAIL_CAPACITY as int),
        0 <= drift(b, decay, fade_draw).color.alpha <= b.color.alpha,
{
}

/// After any number of updates no tail is longer than its capacity: ten
/// snapshots behind the body, two behind each fragment.
pub proof fn lemma_trails_stay_bounded(m: Model, ticks: Seq<Tick>)
    requires
        valid(m),
        forall|i: int| 0 <= i < ticks.len() ==> (#[trigger] ticks[i]).valid(),
    ensures
        valid(run(m, ticks)),
        run(m, ticks).body.trail.len() <= TRAIL_CAPACITY,
        run(m, ticks).fragments is Some ==> forall|i: int|
            0 <= i < run(m, ticks).fragments.unwrap().len() ==> (
            #[trigger] run(m, ticks).fragments.unwrap()[i]).trail.len() <= FRAGMENT_TRAIL_CAPACITY,
    decreases ticks.len(),
{
    if ticks.len() > 0 {
        lemma_trails_stay_bounded(m, ticks.drop_last());
        lemma_step_keeps_valid(run(m, ticks.drop_last()), ticks.last());
    }
}

/// A rising body never loses height in an update, whether or not it bursts,
/// and its climbing speed stays what it was.
pub proof fn lemma_rising_never_descends(m: Model, tick: Tick)
    requires
        valid(m),
        m.exploded_at is None,
    ensures
        step(m, tick).body.position.y >= m.body.position.y,
        step(m, tick).body.velocity.y == m.body.velocity.y,
{
}

/// The particle is rising before the updates `ticks` and after each of them
/// but possibly the last.
pub open spec fn keeps_rising(m: Model, ticks: Seq<Tick>) -> bool
    decreases ticks.len(),
{
    if ticks.len() == 0 {
        m.exploded_at is None
    } else {
        keeps_rising(m, ticks.drop_last()) && run(m, ticks.drop_last()).exploded_at is None
    }
}

/// Over any number of updates of a body that keeps rising, its height never
/// falls below where it began.
pub proof fn lemma_rising_is_monotonic(m: Model, ticks: Seq<Tick>)
    requires
        valid(m),
        forall|i: int| 0 <= i < ticks.len() ==> (#[trigger] ticks[i]).valid(),
        keeps_rising(m, ticks),
    ensures
        run(m, ticks).body.position.y >= m.body.position.y,
    decreases ticks.len(),
{
    if ticks.len() > 0 {
        lemma_rising_is_monotonic(m, ticks.drop_last());
        lemma_trails_stay_bounded(m, ticks.drop_last());
        lemma_rising_never_descends(run(m, ticks.drop_last()), ticks.last());
    }
}

/// The nudge pushes a body toward the middle: one that came from the left
/// never loses speed to the right, the others never gain any.
pub proof fn lemma_nudge_points_inward(m: Model, tick: Tick)
    requires
        valid(m),
        tick.valid(),
        m.exploded_at is None,
    ensures
        m.body.from_left ==> step(m, tick).body.velocity.x >= m.body.velocity.x,
        !m.body.from_left ==> step(m, tick).body.velocity.x <= m.body.velocity.x,
{
    let climb = m.body.velocity.y as int;
    let draw = tick.inward as int;
    assert(climb * climb * draw * 2 >= 0) by (nonlinear_arith)
        requires
            draw >= 0,
    ;
}

/// A particle that is burst after any number of updates has exactly
/// `FRAGMENTS` fragments.
pub proof fn lemma_burst_is_complete(m: Model, ticks: Seq<Tick>)
    requires
        valid(m),
        forall|i: int| 0 <= i < ticks.len() ==> (#[trigger] ticks[i]).valid(),
    ensures
        run(m, ticks).exploded_at is Some ==> run(m, ticks).fragments is Some && run(
            m,
            ticks,
        ).fragments.unwrap().len() == FRAGMENTS,
{
    lemma_trails_stay_bounded(m, ticks);
}

/// While a burst lasts, an update never makes a fragment more opaque, and
/// no opacity falls below none.
pub proof fn lemma_fragments_only_fade(m: Model, tick: Tick, i: int)
    requires
        valid(m),
        tick.valid(),
        m.exploded_at is Some,
        step(m, tick).exploded_at is Some,
        0 <= i < FRAGMENTS,
    ensures
        0 <= step(m, tick).fragments.unwrap()[i].color.alpha <= m.fragments.unwrap()[i].color.alpha,
{
    assert(is_draw(tick.fades@[i]));
    lemma_drift_keeps_valid(
        m.fragments.unwrap()[i],
        speed_decay(elapsed_secs(m.exploded_at.unwrap(), tick.now)),
        tick.fades@[i] as int,
    );
}

/// The particle is burst before the updates `ticks` and still in that burst
/// after each of them.
pub open spec fn burst_lasts(m: Model, ticks: Seq<Tick>) -> bool
    decreases ticks.len(),
{
    if ticks.len() == 0 {
        m.exploded_at is Some
    } else {
        burst_lasts(m, ticks.drop_last()) && run(m, ticks).exploded_at is Some
    }
}

/// Over any number of updates within one burst, no fragment ends more
/// opaque than it began, nor below none.
pub proof fn lemma_fading_is_monotonic(m: Model, ticks: Seq<Tick>, i: int)
    requires
        valid(m),
        forall|k: int| 0 <= k < ticks.len() ==> (#[trigger] ticks[k]).valid(),
        burst_lasts(m, ticks),
        0 <= i < FRAGMENTS,
    ensures
        run(m, ticks).fragments is Some,
        0 <= run(m, ticks).fragments.unwrap()[i].color.alpha <= m.fragments.unwrap()[i].color.alpha,
    decreases ticks.len(),
{
    if ticks.len() > 0 {
        lemma_fading_is_monotonic(m, ticks.drop_last(), i);
        lemma_trails_stay_bounded(m, ticks.drop_last());
        lemma_fragments_only_fade(run(m, ticks.drop_last()), ticks.last(), i);
    }
}

/// An update that comes `MAX_AGE_SECS` seconds or more after the burst began
/// ends it, whatever can still be seen: the particle is a new rising body.
pub proof fn lemma_burst_ends_in_time(m: Model, tick: Tick)
    requires
        valid(m),
        m.exploded_at is Some,
        tick.now - m.exploded_at.unwrap() >= MAX_AGE_SECS * NANOS_PER_SEC,
    ensures
        step(m, tick) == spawned(tick.respawn),
        step(m, tick).exploded_at is None,
        step(m, tick).fragments is None,
{
}

/// A rising body that is above the upper height bursts on its next update,
/// and every fragment starts where the body then is.
pub proof fn lemma_high_body_bursts(m: Model, tick: Tick)
    requires
        valid(m),
        tick.valid(),
        m.exploded_at is None,
        m.body.position.y > RAND_EXPLOSION_END,
    ensures
        step(m, tick).exploded_at == Some(tick.now),
        step(m, tick).fragments is Some,
        step(m, tick).fragments.unwrap().len() == FRAGMENTS,
        forall|i: int|
            0 <= i < FRAGMENTS ==> (#[trigger] step(m, tick).fragments.unwrap()[i]).position == step(
                m,
                tick,
            ).body.position,
{
}

} // verus!

//! The whole display: a fixed number of particles, updated and painted
//! together once per frame.

use vstd::prelude::*;
use crate::units::{Circle, Color};
use crate::particle::{picture, spawned, step, Particle, Spawn, Tick};

verus! {

/// Number of particles on display.
pub const PARTICLES_SIZE: usize = 6;

/// The particles on display.
pub struct State {
    pub particles: Vec<Particle>,
}

impl State {
    /// There are `PARTICLES_SIZE` particles and each is in order.
    pub open spec fn wf(self) -> bool {
        &&& self.particles@.len() == PARTICLES_SIZE
        &&& forall|i: int| 0 <= i < self.particles@.len() ==> (#[trigger] self.particles@[i]).wf()
    }
}

/// Whether the display is in order, so that it can be updated and painted.
pub fn in_order(state: &State) -> (ok: bool)
    ensures
        ok == state.wf(),
{
    if state.particles.len() != PARTICLES_SIZE {
        return false;
    }
    let mut i: usize = 0;
    while i < state.particles.len()
        invariant
            i <= state.particles@.len(),
            forall|j: int| 0 <= j < i ==> (#[trigger] state.particles@[j]).wf(),
        decreases state.particles@.len() - i,
    {
        if !state.particles[i].in_order() {
            assert(!state.particles@[i as int].wf());
            return false;
        }
        i += 1;
    }
    true
}

/// A set of draws for every particle on display.
pub open spec fn valid_spawns(spawns: Seq<Spawn>) -> bool {
    &&& spawns.len() == PARTICLES_SIZE
    &&& forall|i: int| 0 <= i < spawns.len() ==> (#[trigger] spawns[i]).valid()
}

/// A clock reading and draws for every particle on display.
pub open spec fn valid_ticks(ticks: Seq<Tick>) -> bool {
    &&& ticks.len() == PARTICLES_SIZE
    &&& forall|i: int| 0 <= i < ticks.len() ==> (#[trigger] ticks[i]).valid()
}

/// What the first `n` of `particles` paint, one particle after the other.
pub open spec fn pictures(particles: Seq<Particle>, n: nat) -> Seq<Circle>
    decreases n,
{
    if n == 0 {
        Seq::empty()
    } else {
        pictures(particles, (n - 1) as nat) + picture(particles[n - 1]@)
    }
}

/// The colour the frame is cleared to: a dark blue-grey, fully opaque.
pub fn background() -> (color: Color)
    ensures
        color == (Color { red: 100, green: 100, blue: 130, alpha: 1000 }),
{
    Color { red: 100, green: 100, blue: 130, alpha: 1000 }
}

/// The display at its start, from fresh draws: every particle a new rising body.
pub fn initialize() -> (state: State)
    ensures
        state.wf(),
        exists|spawns: Seq<Spawn>|
            {
                &&& #[trigger] valid_spawns(spawns)
                &&& forall|i: int|
                    0 <= i < PARTICLES_SIZE ==> (#[trigger] state.particles@[i])@ == spawned(spawns[i])
            },
{
    let mut spawns: Vec<Spawn> = Vec::new();
    let mut i: usize = 0;
    while i < PARTICLES_SIZE
        invariant
            i <= PARTICLES_SIZE,
            spawns@.len() == i,
            forall|j: int| 0 <= j < i ==> (#[trigger] spawns@[j]).valid(),
        decreases PARTICLES_SIZE - i,
    {
        spawns.push(Spawn::random());
        i += 1;
    }
    let state = initialize_from(&spawns);
    assert(valid_spawns(spawns@));
    state
}

/// The display at its start: one new rising body for each set of draws.
pub fn initialize_from(spawns: &Vec<Spawn>) -> (state: State)
    requires
        valid_spawns(spawns@),
    ensures
        state.wf(),
        forall|i: int| 0 <= i < PARTICLES_SIZE ==> (#[trigger] state.particles@[i])@ == spawned(spawns@[i]),
{
    let mut particles: Vec<Particle> = Vec::new();
    let mut i: usize = 0;
    while i < PARTICLES_SIZE
        invariant
            i <= PARTICLES_SIZE,
            valid_spawns(spawns@),
            particles@.len() == i,
            forall|j: int| 0 <= j < i ==> (#[trigger] particles@[j]).wf(),
            forall|j: int| 0 <= j < i ==> (#[trigger] particles@[j])@ == spawned(spawns@[j]),
        decreases PARTICLES_SIZE - i,
    {
        assert(spawns@[i as int].valid());
        let particle = Particle::from_spawn(&spawns[i]);
        particles.push(particle);
        i += 1;
    }
    State { particles }
}

/// Advances every particle by one update at clock reading `now`, each with
/// fresh draws of its own.
pub fn update(state: &mut State, now: u64)
    requires
        old(state).wf(),
    ensures
        final(state).wf(),
        exists|ticks: Seq<Tick>|
            {
                &&& #[trigger] valid_ticks(ticks)
                &&& forall|i: int| 0 <= i < PARTICLES_SIZE ==> (#[trigger] ticks[i]).now == now
                &&& forall|i: int|
                    0 <= i < PARTICLES_SIZE ==> (#[trigger] final(state).particles@[i])@ == step(
                        old(state).particles@[i]@,
                        ticks[i],
                    )
            },
{
    let mut ticks: Vec<Tick> = Vec::new();
    let mut i: usize = 0;
    while i < PARTICLES_SIZE
        invariant
            i <= PARTICLES_SIZE,
            ticks@.len() == i,
            forall|j: int| 0 <= j < i ==> (#[trigger] ticks@[j]).valid() && ticks@[j].now == now,
        decreases PARTICLES_SIZE - i,
    {
        ticks.push(Tick::random(now));
        i += 1;
    }
    advance(state, &ticks);
    assert(valid_ticks(ticks@));
}

/// Advances every particle by one update, each with its own tick.
pub fn advance(state: &mut State, ticks: &Vec<Tick>)
    requires
        old(state).wf(),
        valid_ticks(ticks@),
    ensures
        final(state).wf(),
        forall|i: int|
            0 <= i < PARTICLES_SIZE ==> (#[trigger] final(state).particles@[i])@ == step(
                old(state).particles@[i]@,
                ticks@[i],
            ),
{
    let mut i: usize = 0;
    while i < PARTICLES_SIZE
        invariant
            i <= PARTICLES_SIZE,
            valid_ticks(ticks@),
            state.wf(),
            forall|j: int|
                0 <= j < i ==> (#[trigger] state.particles@[j])@ == step(
                    old(state).particles@[j]@,
                    ticks@[j],
                ),
            forall|j: int| i <= j < PARTICLES_SIZE ==> state.particles@[j] == old(state).particles@[j],
        decreases PARTICLES_SIZE - i,
    {
        assert(ticks@[i as int].valid());
        assert(state.particles@[i as int].wf());
        state.particles[i].advance(&ticks[i]);
        i += 1;
    }
}

/// Everything to paint on the cleared frame, in painting order: the circles
/// of the first particle, then those of the second, and so on.
pub fn view(state: &State) -> (circles: Vec<Circle>)
    requires
        state.wf(),
    ensures
        circles@ == pictures(state.particles@, PARTICLES_SIZE as nat),
{
    let mut circles: Vec<Circle> = Vec::new();
    let mut i: usize = 0;
    while i < PARTICLES_SIZE
        invariant
            i <= PARTICLES_SIZE,
            state.wf(),
            circles@ == pictures(state.particles@, i as nat),
        decreases PARTICLES_SIZE - i,
    {
        assert(state.particles@[i as int].wf());
        let mut part: Vec<Circle> = state.particles[i].draw();
        circles.append(&mut part);
        i += 1;
    }
    circles
}

} // verus!

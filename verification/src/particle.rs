//! One firework: a body that rises and drifts inward, bursts into fragments,
//! and is replaced by a fresh body once the fragments are spent.

use vstd::prelude::*;
use crate::units::{add_clamped, clamped, elapsed_secs, is_draw, seconds_between, sub_clamped, Circle, Color, Point, UNIT};
use crate::trail::TrailParticle;

verus! {

/// Horizontal half-width of the band in which bodies appear.
pub const X_START: i64 = 500_000;

/// Lowest height at which bodies appear.
pub const Y_START: i64 = -500_000;

/// Height above which a body may burst by chance.
pub const RAND_EXPLOSION_START: i64 = 50_000;

/// Height above which a body bursts at once.
pub const RAND_EXPLOSION_END: i64 = 300_000;

/// Chance per update, in thousandths, of a burst between the two heights.
pub const EXPLOSION_CHANCE: i64 = 50;

/// Number of fragments in a burst.
pub const FRAGMENTS: usize = 20;

/// Snapshots kept behind a rising body.
pub const TRAIL_CAPACITY: usize = 10;

/// Snapshots kept behind a fragment.
pub const FRAGMENT_TRAIL_CAPACITY: usize = 2;

/// Radius of a rising body.
pub const BODY_SIZE: i64 = 5_000;

/// Radius of a fragment.
pub const FRAGMENT_SIZE: i64 = 3_000;

/// Fastest climb a body can be given, per update.
pub const MAX_CLIMB: i64 = 15_000;

/// Whole seconds after which a burst is over whatever is still visible.
pub const MAX_AGE_SECS: u64 = 5;

/// Largest loss of opacity in one update, in thousandths.
pub const MAX_FADE: i64 = 50;

/// The draws that decide where a new body appears, its colour and its velocity.
#[derive(Clone, Copy, Debug, PartialEq, Eq, Structural)]
pub struct Spawn {
    pub x: i64,
    pub y: i64,
    pub red: i64,
    pub green: i64,
    pub blue: i64,
    pub drift: i64,
    pub climb: i64,
}

impl Spawn {
    /// Every field is a draw.
    pub open spec fn valid(self) -> bool {
        &&& is_draw(self.x)
        &&& is_draw(self.y)
        &&& is_draw(self.red)
        &&& is_draw(self.green)
        &&& is_draw(self.blue)
        &&& is_draw(self.drift)
        &&& is_draw(self.climb)
    }
}

/// Everything one update of one particle may consume: the clock reading in
/// nanoseconds and the random draws. An update uses only the draws that its
/// state calls for.
pub struct Tick {
    /// The clock, in nanoseconds.
    pub now: u64,
    /// Draw that sizes the inward nudge of a rising body.
    pub inward: i64,
    /// Draw that decides a burst between the two heights.
    pub chance: i64,
    /// One pair of draws per fragment: its velocity across and along.
    pub kicks: Vec<Point>,
    /// One draw per fragment: how much opacity it loses.
    pub fades: Vec<i64>,
    /// The draws for the body that replaces a spent burst.
    pub respawn: Spawn,
}

impl Tick {
    /// The draws are draws and there is one set for each fragment.
    pub open spec fn valid(self) -> bool {
        &&& is_draw(self.inward)
        &&& is_draw(self.chance)
        &&& valid_kicks(self.kicks@)
        &&& self.fades@.len() == FRAGMENTS
        &&& forall|i: int| 0 <= i < self.fades@.len() ==> is_draw(#[trigger] self.fades@[i])
        &&& self.respawn.valid()
    }
}

/// One pair of draws for each fragment of a burst.
pub open spec fn valid_kicks(kicks: Seq<Point>) -> bool {
    &&& kicks.len() == FRAGMENTS
    &&& forall|i: int| 0 <= i < kicks.len() ==> is_draw(#[trigger] kicks[i].x) && is_draw(kicks[i].y)
}

/// A moving dot as the contracts see it: a rising body or one fragment.
pub struct Body {
    pub position: Point,
    pub color: Color,
    pub velocity: Point,
    pub size: i64,
    pub from_left: bool,
    pub trail: Seq<TrailParticle>,
}

/// A particle as the contracts see it. It is rising when `exploded_at` is
/// `None`; otherwise `fragments` holds the pieces of its burst.
pub struct Model {
    pub body: Body,
    pub fragments: Option<Seq<Body>>,
    pub exploded_at: Option<u64>,
}

/// The tail after one more snapshot: the snapshot goes to the end, and the
/// oldest leaves once there are more than `capacity`.
pub open spec fn push_bounded(trail: Seq<TrailParticle>, sample: TrailParticle, capacity: int) -> Seq<
    TrailParticle,
> {
    let grown = trail.push(sample);
    if grown.len() > capacity {
        grown.subrange(1, grown.len() as int)
    } else {
        grown
    }
}

/// The point of `low..high` that a draw picks: `low` for the smallest draw,
/// just under `high` for the largest.
pub open spec fn spread(low: int, high: int, draw: int) -> int {
    low + (high - low) * draw / (UNIT as int)
}

/// How far a rising body's sideways speed is nudged toward the middle: two
/// thousandths of the square of its climb, scaled by a draw.
pub open spec fn inward_nudge(climb: int, draw: int) -> int {
    climb * climb * draw * 2 / 1_000_000_000
}

/// A body bursts above the upper height, and by chance above the lower one.
pub open spec fn should_explode(y: int, chance: int) -> bool {
    y > RAND_EXPLOSION_START && chance < EXPLOSION_CHANCE || y > RAND_EXPLOSION_END
}

/// What fragments lose in speed per update: a tenth, and a tenth more for
/// each whole second since the burst, up to three.
pub open spec fn speed_decay(secs: int) -> int {
    (1 + if secs < 3 { secs } else { 3 }) * 100
}

/// The opacity a fragment loses for a draw.
pub open spec fn fade(draw: int) -> int {
    draw * MAX_FADE / (UNIT as int)
}

/// The body that a set of draws gives: somewhere in the starting band, in a
/// random opaque colour, climbing, headed for the middle.
pub open spec fn spawned(s: Spawn) -> Model {
    let x = spread(-X_START, X_START as int, s.x as int);
    Model {
        body: Body {
            position: Point { x: x as i64, y: spread(Y_START as int, Y_START + 100_000, s.y as int) as i64 },
            color: Color { red: s.red, green: s.green, blue: s.blue, alpha: UNIT },
            velocity: Point {
                x: spread(-1_500, 1_500, s.drift as int) as i64,
                y: (spread(500, 1_000, s.climb as int) * 15) as i64,
            },
            size: BODY_SIZE,
            from_left: x < 0,
            trail: Seq::empty(),
        },
        fragments: None,
        exploded_at: None,
    }
}

/// One fragment of a burst at `position`: it has the colour of the body that
/// burst and flies off as its pair of draws says.
pub open spec fn fragment(position: Point, color: Color, kick: Point) -> Body {
    Body {
        position,
        color,
        velocity: Point {
            x: (spread(-1_000, 1_000, kick.x as int) * 10) as i64,
            y: (spread(-1_000, 800, kick.y as int) * 10) as i64,
        },
        size: FRAGMENT_SIZE,
        from_left: true,
        trail: Seq::empty(),
    }
}

/// The fragments of a burst, one for each pair of draws.
pub open spec fn burst(position: Point, color: Color, kicks: Seq<Point>) -> Seq<Body> {
    Seq::new(kicks.len(), |i: int| fragment(position, color, kicks[i]))
}

/// A rising body after one update: it has moved by its velocity, its
/// sideways speed is nudged toward the middle, and its new place is on its tail.
pub open spec fn fall(b: Body, inward: int) -> Body {
    let nudge = inward_nudge(b.velocity.y as int, inward);
    let adjusted = if b.from_left { nudge } else { -nudge };
    let position = Point {
        x: clamped(b.position.x + b.velocity.x) as i64,
        y: clamped(b.position.y + b.velocity.y) as i64,
    };
    Body {
        position,
        color: b.color,
        velocity: Point { x: clamped(b.velocity.x + adjusted) as i64, y: b.velocity.y },
        size: b.size,
        from_left: b.from_left,
        trail: push_bounded(b.trail, TrailParticle { position, color: b.color }, TRAIL_CAPACITY as int),
    }
}

/// A fragment after one update: it has moved by its velocity and put its new
/// place on its tail, then lost `decay` of its upward speed, the square of
/// `decay` of its sideways speed, and some opacity, never below none.
pub open spec fn drift(b: Body, decay: int, fade_draw: int) -> Body {
    let position = Point {
        x: clamped(b.position.x + b.velocity.x) as i64,
        y: clamped(b.position.y + b.velocity.y) as i64,
    };
    let faded = b.color.alpha - fade(fade_draw);
    Body {
        position,
        color: b.color.with_alpha(if faded > 0 { faded as i64 } else { 0 }),
        velocity: Point {
            x: clamped(b.velocity.x - decay * decay / (UNIT as int)) as i64,
            y: clamped(b.velocity.y - decay) as i64,
        },
        size: b.size,
        from_left: b.from_left,
        trail: push_bounded(
            b.trail,
            TrailParticle { position, color: b.color },
            FRAGMENT_TRAIL_CAPACITY as int,
        ),
    }
}

/// Every fragment after one update.
pub open spec fn drift_each(fragments: Seq<Body>, decay: int, fades: Seq<i64>) -> Seq<Body> {
    Seq::new(fragments.len(), |i: int| drift(fragments[i], decay, fades[i] as int))
}

/// No fragment can be seen any more.
pub open spec fn all_invisible(fragments: Seq<Body>) -> bool {
    forall|i: int| 0 <= i < fragments.len() ==> (#[trigger] fragments[i]).color.alpha <= 0
}

/// A burst is over when nothing of it can be seen, or when `MAX_AGE_SECS`
/// whole seconds have passed since it began.
pub open spec fn spent(fragments: Seq<Body>, since: u64, now: u64) -> bool {
    all_invisible(fragments) || elapsed_secs(since, now) >= MAX_AGE_SECS
}

/// One update of a rising particle: the body falls on, and bursts where it
/// should, at the place it has reached.
pub open spec fn step_rising(m: Model, tick: Tick) -> Model {
    let body = fall(m.body, tick.inward as int);
    if should_explode(body.position.y as int, tick.chance as int) {
        Model {
            body,
            fragments: Some(burst(body.position, body.color, tick.kicks@)),
            exploded_at: Some(tick.now),
        }
    } else {
        Model { body, fragments: None, exploded_at: None }
    }
}

/// One update of a burst that began at `since`: every fragment drifts on; if
/// the burst is then over, a new body takes the particle's place.
pub open spec fn step_burst(m: Model, fragments: Seq<Body>, since: u64, tick: Tick) -> Model {
    let next = drift_each(fragments, speed_decay(elapsed_secs(since, tick.now)), tick.fades@);
    if spent(next, since, tick.now) {
        spawned(tick.respawn)
    } else {
        Model { body: m.body, fragments: Some(next), exploded_at: Some(since) }
    }
}

/// One update of a particle.
pub open spec fn step(m: Model, tick: Tick) -> Model {
    match (m.exploded_at, m.fragments) {
        (None, _) => step_rising(m, tick),
        (Some(since), Some(fragments)) => step_burst(m, fragments, since, tick),
        _ => m,
    }
}

/// Whether a particle is finished in its present state: a rising body when
/// it should burst, a burst when it is spent.
pub open spec fn dead(m: Model, chance: int, now: u64) -> bool {
    match m.exploded_at {
        None => should_explode(m.body.position.y as int, chance),
        Some(since) => match m.fragments {
            Some(fragments) => spent(fragments, since, now),
            None => elapsed_secs(since, now) >= MAX_AGE_SECS,
        },
    }
}

/// The circles that paint one dot: its tail from the oldest snapshot to the
/// newest, then the dot itself on top.
pub open spec fn body_circles(b: Body) -> Seq<Circle> {
    Seq::new(b.trail.len(), |i: int| b.trail[i].circle(b.trail.len() as int, i)).push(
        Circle { center: b.position, radius: b.size, color: b.color },
    )
}

/// The circles of the first `n` of `bodies`, one dot after the other.
pub open spec fn circles_of(bodies: Seq<Body>, n: nat) -> Seq<Circle>
    decreases n,
{
    if n == 0 {
        Seq::empty()
    } else {
        circles_of(bodies, (n - 1) as nat) + body_circles(bodies[n - 1])
    }
}

/// What is painted for a particle, in painting order: a rising body with its
/// tail, or every fragment of a burst with its tail.
pub open spec fn picture(m: Model) -> Seq<Circle> {
    match (m.exploded_at, m.fragments) {
        (None, _) => body_circles(m.body),
        (Some(_), Some(fragments)) => circles_of(fragments, fragments.len()),
        _ => Seq::empty(),
    }
}

/// A dot is in order when its colour is and its tail is within `capacity`.
pub open spec fn valid_body(b: Body, capacity: int) -> bool {
    b.color.valid() && b.trail.len() <= capacity
}

/// A particle is either rising, with no burst time and no fragments, or
/// burst, with both. A rising body climbs; a burst has exactly `FRAGMENTS`
/// fragments; no tail is longer than its capacity.
pub open spec fn valid(m: Model) -> bool {
    &&& valid_body(m.body, TRAIL_CAPACITY as int)
    &&& match (m.exploded_at, m.fragments) {
        (None, None) => 0 < m.body.velocity.y <= MAX_CLIMB,
        (Some(_), Some(f)) => {
            &&& f.len() == FRAGMENTS
            &&& forall|i: int| 0 <= i < f.len() ==> valid_body(#[trigger] f[i], FRAGMENT_TRAIL_CAPACITY as int)
        },
        _ => false,
    }
}

/// The tail with one more snapshot, as `push_bounded` describes it.
pub fn push_sample(trail: &Vec<TrailParticle>, sample: TrailParticle, capacity: usize) -> (next: Vec<
    TrailParticle,
>)
    requires
        capacity >= 1,
    ensures
        next@ == push_bounded(trail@, sample, capacity as int),
{
    let n: usize = trail.len();
    let start: usize = if n >= capacity { 1 } else { 0 };
    let mut next: Vec<TrailParticle> = Vec::new();
    let mut i: usize = start;
    while i < n
        invariant
            start <= i <= n,
            n == trail@.len(),
            next@ == trail@.subrange(start as int, i as int),
        decreases n - i,
    {
        next.push(trail[i]);
        i += 1;
        assert(next@ =~= trail@.subrange(start as int, i as int));
    }
    next.push(sample);
    assert(next@ =~= push_bounded(trail@, sample, capacity as int));
    next
}

/// Maps a draw into `low..high`.
pub fn spread_draw(low: i64, high: i64, draw: i64) -> (r: i64)
    requires
        -1_000_000_000 <= low <= high <= 1_000_000_000,
        is_draw(draw),
    ensures
        r == spread(low as int, high as int, draw as int),
        low <= r <= high,
        low < high ==> r < high,
{
    let width: i64 = high - low;
    assert(0 <= width * draw <= width * 999) by (nonlinear_arith)
        requires
            0 <= width,
            0 <= draw <= 999,
    ;
    let part: i64 = width * draw / UNIT;
    low + part
}

/// A firework particle, rising or burst.
pub struct Particle {
    pub position: Point,
    pub color: Color,
    pub is_from_left: bool,
    pub size: i64,
    pub direction_vec: Point,
    pub particles: Option<Vec<Particle>>,
    pub exploded_at: Option<u64>,
    pub trail: Vec<TrailParticle>,
}

impl View for Particle {
    type V = Model;

    open spec fn view(&self) -> Model {
        Model {
            body: self.body(),
            fragments: match self.particles {
                Some(v) => Some(v@.map_values(|p: Particle| p.body())),
                None => None,
            },
            exploded_at: self.exploded_at,
        }
    }
}

impl Particle {
    /// The dot itself, without what became of it.
    pub open spec fn body(self) -> Body {
        Body {
            position: self.position,
            color: self.color,
            velocity: self.direction_vec,
            size: self.size,
            from_left: self.is_from_left,
            trail: self.trail@,
        }
    }

    /// A fragment never bursts, and keeps at most a short tail.
    pub open spec fn wf_fragment(self) -> bool {
        &&& self.particles is None
        &&& self.exploded_at is None
        &&& self.color.valid()
        &&& self.trail@.len() <= FRAGMENT_TRAIL_CAPACITY
    }

    /// What the fields must hold for the particle to be what `valid` asks
    /// of its view; a fragment holds no fragments of its own.
    pub open spec fn wf(self) -> bool {
        &&& valid(self@)
        &&& match self.particles {
            Some(v) => forall|i: int| 0 <= i < v@.len() ==> (#[trigger] v@[i]).wf_fragment(),
            None => true,
        }
    }

    /// Whether this is a fragment in order.
    pub fn fragment_in_order(&self) -> (ok: bool)
        ensures
            ok == self.wf_fragment(),
    {
        self.particles.is_none() && self.exploded_at.is_none() && self.color.in_range()
            && self.trail.len() <= FRAGMENT_TRAIL_CAPACITY
    }

    /// Whether the particle is in order, so that it can be updated and painted.
    pub fn in_order(&self) -> (ok: bool)
        ensures
            ok == self.wf(),
    {
        if !self.color.in_range() || self.trail.len() > TRAIL_CAPACITY {
            return false;
        }
        match (&self.exploded_at, &self.particles) {
            (None, None) => 0 < self.direction_vec.y && self.direction_vec.y <= MAX_CLIMB,
            (Some(_), Some(particles)) => {
                if particles.len() != FRAGMENTS {
                    return false;
                }
                let mut i: usize = 0;
                while i < particles.len()
                    invariant
                        i <= particles@.len(),
                        self.particles == Some(*particles),
                        forall|j: int| 0 <= j < i ==> (#[trigger] particles@[j]).wf_fragment(),
                    decreases particles@.len() - i,
                {
                    if !particles[i].fragment_in_order() {
                        assert(!particles@[i as int].wf_fragment());
                        return false;
                    }
                    i += 1;
                }
                true
            },
            _ => false,
        }
    }

    /// A new rising body from fresh draws: somewhere in the starting band,
    /// in a random opaque colour, climbing.
    pub fn new() -> (particle: Particle)
        ensures
            particle.wf(),
            exists|spawn: Spawn| #[trigger] spawn.valid() && particle@ == spawned(spawn),
    {
        let spawn = Spawn::random();
        Particle::from_spawn(&spawn)
    }

    /// A new rising body, placed, coloured and sped as the draws say.
    pub fn from_spawn(spawn: &Spawn) -> (particle: Particle)
        requires
            spawn.valid(),
        ensures
            particle.wf(),
            particle@ == spawned(*spawn),
    {
        let x: i64 = spread_draw(-X_START, X_START, spawn.x);
        let y: i64 = spread_draw(Y_START, Y_START + 100_000, spawn.y);
        let drift: i64 = spread_draw(-1_500, 1_500, spawn.drift);
        let climb: i64 = spread_draw(500, 1_000, spawn.climb) * 15;
        let particle = Particle {
            position: Point { x, y },
            color: Color { red: spawn.red, green: spawn.green, blue: spawn.blue, alpha: UNIT },
            direction_vec: Point { x: drift, y: climb },
            is_from_left: x < 0,
            size: BODY_SIZE,
            particles: None,
            trail: Vec::new(),
            exploded_at: None,
        };
        assert(particle@.body.trail =~= Seq::empty());
        particle
    }

    /// Whether the body, where it is now, bursts on this update.
    pub fn get_should_explode(&self, chance: i64) -> (bursts: bool)
        ensures
            bursts == should_explode(self.position.y as int, chance as int),
    {
        self.position.y > RAND_EXPLOSION_START && chance < EXPLOSION_CHANCE || self.position.y
            > RAND_EXPLOSION_END
    }

    /// Bursts the body where it is: from `now` on the particle is a burst of
    /// `FRAGMENTS` fragments at its place and in its colour, each flying off
    /// as its pair of draws says.
    pub fn explode(&mut self, now: u64, kicks: &Vec<Point>)
        requires
            valid_kicks(kicks@),
            valid_body(old(self).body(), TRAIL_CAPACITY as int),
        ensures
            final(self).wf(),
            final(self)@ == (Model {
                body: old(self).body(),
                fragments: Some(burst(old(self).position, old(self).color, kicks@)),
                exploded_at: Some(now),
            }),
    {
        let mut fragments: Vec<Particle> = Vec::new();
        let mut i: usize = 0;
        while i < FRAGMENTS
            invariant
                i <= FRAGMENTS,
                valid_kicks(kicks@),
                self.color.valid(),
                *self == *old(self),
                fragments@.len() == i,
                forall|j: int| 0 <= j < i ==> (#[trigger] fragments@[j]).wf_fragment(),
                forall|j: int|
                    0 <= j < i ==> (#[trigger] fragments@[j]).body() == fragment(
                        self.position,
                        self.color,
                        kicks@[j],
                    ),
            decreases FRAGMENTS - i,
        {
            let kick: Point = kicks[i];
            assert(is_draw(kicks@[i as int].x) && is_draw(kicks@[i as int].y));
            let across: i64 = spread_draw(-1_000, 1_000, kick.x) * 10;
            let along: i64 = spread_draw(-1_000, 800, kick.y) * 10;
            let piece = Particle {
                position: Point { x: self.position.x, y: self.position.y },
                color: self.color,
                direction_vec: Point { x: across, y: along },
                particles: None,
                is_from_left: true,
                trail: Vec::new(),
                size: FRAGMENT_SIZE,
                exploded_at: None,
            };
            assert(piece.body().trail =~= Seq::empty());
            fragments.push(piece);
            i += 1;
        }
        assert(fragments@.map_values(|p: Particle| p.body()) =~= burst(
            self.position,
            self.color,
            kicks@,
        ));
        self.exploded_at = Some(now);
        self.particles = Some(fragments);
    }

    /// This fragment one update later, for a loss of speed, which is one of
    /// the values that `speed_decay` takes, and a fade draw.
    pub fn drifted(&self, decay: i64, fade_draw: i64) -> (next: Particle)
        requires
            self.wf_fragment(),
            100 <= decay <= 400,
            is_draw(fade_draw),
        ensures
            next.wf_fragment(),
            next.body() == drift(self.body(), decay as int, fade_draw as int),
    {
        let position = Point {
            x: add_clamped(self.position.x, self.direction_vec.x),
            y: add_clamped(self.position.y, self.direction_vec.y),
        };
        let sample = TrailParticle { position, color: self.color };
        let trail = push_sample(&self.trail, sample, FRAGMENT_TRAIL_CAPACITY);
        let new_alpha: i64 = self.color.alpha - fade_draw * MAX_FADE / UNIT;
        assert(0 <= decay * decay <= 160_000) by (nonlinear_arith)
            requires
                100 <= decay <= 400,
        ;
        Particle {
            position,
            color: Color {
                red: self.color.red,
                green: self.color.green,
                blue: self.color.blue,
                alpha: if new_alpha > 0 { new_alpha } else { 0 },
            },
            is_from_left: self.is_from_left,
            size: self.size,
            direction_vec: Point {
                x: sub_clamped(self.direction_vec.x, decay * decay / UNIT),
                y: sub_clamped(self.direction_vec.y, decay),
            },
            particles: None,
            exploded_at: None,
            trail,
        }
    }

    /// Whether the particle is finished in its present state: a rising body
    /// when it should burst, a burst when nothing of it can be seen or
    /// `MAX_AGE_SECS` whole seconds have passed since it began.
    pub fn is_dead(&self, chance: i64, now: u64) -> (finished: bool)
        ensures
            finished == dead(self@, chance as int, now),
    {
        match self.exploded_at {
            None => self.get_should_explode(chance),
            Some(since) => {
                let is_invisible: bool = match &self.particles {
                    None => false,
                    Some(particles) => none_visible(particles),
                };
                let is_too_old: bool = seconds_between(since, now) >= MAX_AGE_SECS;
                is_invisible || is_too_old
            },
        }
    }

    /// Advances the particle by one update at clock reading `now`, with
    /// fresh draws: what `advance` does for some tick of that time.
    pub fn update(&mut self, now: u64)
        requires
            old(self).wf(),
        ensures
            final(self).wf(),
            exists|tick: Tick|
                #[trigger] tick.valid() && tick.now == now && final(self)@ == step(old(self)@, tick),
    {
        let tick = Tick::random(now);
        self.advance(&tick);
    }

    /// Advances the particle by one update. A rising body moves on and
    /// bursts where it should; the fragments of a burst drift and fade, and
    /// when the burst is spent a new body takes the particle's place.
    pub fn advance(&mut self, tick: &Tick)
        requires
            old(self).wf(),
            tick.valid(),
        ensures
            final(self).wf(),
            final(self)@ == step(old(self)@, *tick),
    {
        match self.exploded_at {
            None => {
                let climb: i64 = self.direction_vec.y;
                assert(0 <= climb * climb * tick.inward * 2 <= 450_000_000_000) by (nonlinear_arith)
                    requires
                        0 < climb <= 15_000,
                        0 <= tick.inward < 1000,
                ;
                assert(0 <= climb * climb <= 225_000_000) by (nonlinear_arith)
                    requires
                        0 < climb <= 15_000,
                ;
                assert(0 <= climb * climb * tick.inward <= 225_000_000_000) by (nonlinear_arith)
                    requires
                        0 <= climb * climb <= 225_000_000,
                        0 <= tick.inward < 1000,
                ;
                let inward_offset: i64 = climb * climb * tick.inward * 2 / 1_000_000_000;
                let adjusted_offset: i64 = if !self.is_from_left {
                    -inward_offset
                } else {
                    inward_offset
                };
                self.position.x = add_clamped(self.position.x, self.direction_vec.x);
                self.position.y = add_clamped(self.position.y, self.direction_vec.y);
                self.direction_vec.x = add_clamped(self.direction_vec.x, adjusted_offset);
                if self.get_should_explode(tick.chance) {
                    self.explode(tick.now, &tick.kicks);
                }
                let sample = TrailParticle::new(self);
                self.trail = push_sample(&self.trail, sample, TRAIL_CAPACITY);
                assert(self@.fragments =~= step(old(self)@, *tick).fragments);
            },
            Some(since) => {
                let secs: u64 = seconds_between(since, tick.now);
                let capped: i64 = if secs < 3 { secs as i64 } else { 3 };
                let speed_decrease: i64 = (1 + capped) * 100;
                let next: Option<Vec<Particle>> = match &self.particles {
                    Some(particles) => Some(drift_all(particles, speed_decrease, &tick.fades)),
                    None => None,
                };
                self.particles = next;
                if self.is_dead(tick.chance, tick.now) {
                    *self = Particle::from_spawn(&tick.respawn);
                }
            },
        }
    }

    /// Appends the circles of this dot to `out`: tail first, the dot last.
    pub fn draw_body(&self, out: &mut Vec<Circle>)
        requires
            self.trail@.len() <= crate::trail::RGB_SIZE,
        ensures
            final(out)@ == old(out)@ + body_circles(self.body()),
    {
        let size: usize = self.trail.len();
        let ghost tail = Seq::new(size as nat, |i: int| self.trail@[i].circle(size as int, i));
        let mut ix: usize = 0;
        while ix < size
            invariant
                ix <= size,
                size == self.trail@.len(),
                size <= crate::trail::RGB_SIZE,
                tail == Seq::new(size as nat, |i: int| self.trail@[i].circle(size as int, i)),
                out@ == old(out)@ + tail.subrange(0, ix as int),
            decreases size - ix,
        {
            let circle = self.trail[ix].draw(size, ix);
            out.push(circle);
            ix += 1;
            assert(out@ =~= old(out)@ + tail.subrange(0, ix as int));
        }
        out.push(Circle { center: self.position, radius: self.size, color: self.color });
        assert(out@ =~= old(out)@ + body_circles(self.body()));
    }

    /// The circles to paint for this particle, in painting order: a rising
    /// body's tail and the body on top of it, or, for a burst, each
    /// fragment's tail and the fragment.
    pub fn draw(&self) -> (circles: Vec<Circle>)
        requires
            self.wf(),
        ensures
            circles@ == picture(self@),
    {
        let mut circles: Vec<Circle> = Vec::new();
        match self.exploded_at {
            None => {
                self.draw_body(&mut circles);
                assert(circles@ =~= picture(self@));
            },
            Some(_) => {
                match &self.particles {
                    Some(particles) => {
                        let ghost bodies = particles@.map_values(|p: Particle| p.body());
                        let mut i: usize = 0;
                        while i < particles.len()
                            invariant
                                i <= particles@.len(),
                                bodies == particles@.map_values(|p: Particle| p.body()),
                                forall|j: int|
                                    0 <= j < particles@.len() ==> (#[trigger] particles@[j]).wf_fragment(),
                                circles@ == circles_of(bodies, i as nat),
                            decreases particles@.len() - i,
                        {
                            assert(particles@[i as int].wf_fragment());
                            particles[i].draw_body(&mut circles);
                            i += 1;
                        }
                    },
                    None => {},
                }
            },
        }
        circles
    }
}

/// Whether every one of `particles` has lost all its opacity.
pub fn none_visible(particles: &Vec<Particle>) -> (invisible: bool)
    ensures
        invisible == all_invisible(particles@.map_values(|p: Particle| p.body())),
{
    let ghost bodies = particles@.map_values(|p: Particle| p.body());
    let mut i: usize = 0;
    while i < particles.len()
        invariant
            i <= particles@.len(),
            bodies == particles@.map_values(|p: Particle| p.body()),
            forall|j: int| 0 <= j < i ==> (#[trigger] bodies[j]).color.alpha <= 0,
        decreases particles@.len() - i,
    {
        if particles[i].color.alpha > 0 {
            assert(bodies[i as int].color.alpha > 0);
            return false;
        }
        i += 1;
    }
    true
}

/// Every fragment one update later, for one loss of speed and a fade draw each.
pub fn drift_all(particles: &Vec<Particle>, decay: i64, fades: &Vec<i64>) -> (next: Vec<Particle>)
    requires
        forall|i: int| 0 <= i < particles@.len() ==> (#[trigger] particles@[i]).wf_fragment(),
        100 <= decay <= 400,
        fades@.len() == particles@.len(),
        forall|i: int| 0 <= i < fades@.len() ==> is_draw(#[trigger] fades@[i]),
    ensures
        next@.len() == particles@.len(),
        forall|i: int| 0 <= i < next@.len() ==> (#[trigger] next@[i]).wf_fragment(),
        next@.map_values(|p: Particle| p.body()) == drift_each(
            particles@.map_values(|p: Particle| p.body()),
            decay as int,
            fades@,
        ),
{
    let mut next: Vec<Particle> = Vec::new();
    let mut i: usize = 0;
    while i < particles.len()
        invariant
            i <= particles@.len(),
            fades@.len() == particles@.len(),
            100 <= decay <= 400,
            forall|j: int| 0 <= j < particles@.len() ==> (#[trigger] particles@[j]).wf_fragment(),
            forall|j: int| 0 <= j < fades@.len() ==> is_draw(#[trigger] fades@[j]),
            next@.len() == i,
            forall|j: int| 0 <= j < i ==> (#[trigger] next@[j]).wf_fragment(),
            forall|j: int|
                0 <= j < i ==> (#[trigger] next@[j]).body() == drift(
                    particles@[j].body(),
                    decay as int,
                    fades@[j] as int,
                ),
        decreases particles@.len() - i,
    {
        assert(particles@[i as int].wf_fragment());
        assert(is_draw(fades@[i as int]));
        let piece = particles[i].drifted(decay, fades[i]);
        next.push(piece);
        i += 1;
    }
    assert(next@.map_values(|p: Particle| p.body()) =~= drift_each(
        particles@.map_values(|p: Particle| p.body()),
        decay as int,
        fades@,
    ));
    next
}

} // verus!

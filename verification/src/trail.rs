//! The fading tail behind a moving body: snapshots of where it was and how
//! each snapshot is painted according to its rank in the tail.

use vstd::prelude::*;
use crate::units::{Circle, Color, Point};
use crate::particle::Particle;

verus! {

/// The number of steps the opacity ramp is divided into.
pub const RGB_SIZE: usize = 255;

/// Opacity of the oldest snapshot before the floor is applied, in thousandths.
pub const BASE_ALPHA: i64 = 100;

/// The floor under every snapshot's opacity, in thousandths.
pub const MAX_ALPHA: i64 = 800;

/// Half of one whole, in thousandths.
pub const HALF_UNIT: i64 = 500;

/// Half of `base_size`, times the share of `base_size` that lies below
/// `minify_factor`: `base/2 * (1 - (base - k)/base)`, in thousandths.
pub open spec fn scaled(base_size: int, minify_factor: int) -> int {
    (HALF_UNIT * base_size * (base_size - (base_size - minify_factor))) / base_size
}

/// For a positive base the scaled size is half the rank, whatever the base.
pub proof fn lemma_scaled_is_half_rank(base_size: int, minify_factor: int)
    requires
        base_size > 0,
    ensures
        scaled(base_size, minify_factor) == HALF_UNIT * minify_factor,
{
    let k: int = HALF_UNIT * minify_factor;
    assert(HALF_UNIT * base_size * (base_size - (base_size - minify_factor)) == k * base_size)
        by (nonlinear_arith)
        requires
            k == HALF_UNIT * minify_factor,
    ;
    assert((k * base_size) / base_size == k) by (nonlinear_arith)
        requires
            base_size > 0,
    ;
}

/// Size, in thousandths, of the snapshot of rank `minify_factor` in a tail
/// measured against `base_size`.
pub fn scale(base_size: usize, minify_factor: usize) -> (size: i64)
    requires
        0 < base_size,
        minify_factor <= base_size,
        HALF_UNIT * minify_factor <= i64::MAX,
    ensures
        size == scaled(base_size as int, minify_factor as int),
        size == HALF_UNIT * minify_factor,
{
    proof {
        lemma_scaled_is_half_rank(base_size as int, minify_factor as int);
    }
    HALF_UNIT * (minify_factor as i64)
}

/// Opacity of the snapshot of rank `ix`: the ramp from `BASE_ALPHA`, but
/// never less than `MAX_ALPHA`.
pub open spec fn trail_alpha(ix: int) -> int {
    let ramp = BASE_ALPHA + scaled(RGB_SIZE as int, ix) / (RGB_SIZE as int);
    if ramp > MAX_ALPHA {
        ramp
    } else {
        MAX_ALPHA as int
    }
}

/// Where a body was, and in which colour, at one past update.
#[derive(Clone, Copy, Debug, PartialEq, Eq, Structural)]
pub struct TrailParticle {
    pub position: Point,
    pub color: Color,
}

impl TrailParticle {
    /// The circle that paints this snapshot when it has rank `ix` in a tail
    /// of `size` snapshots.
    pub open spec fn circle(self, size: int, ix: int) -> Circle {
        Circle {
            center: self.position,
            radius: scaled(size, ix) as i64,
            color: self.color.with_alpha(trail_alpha(ix) as i64),
        }
    }

    /// Records where `particle` is now and what colour it has.
    pub fn new(particle: &Particle) -> (sample: TrailParticle)
        ensures
            sample.position == particle.position,
            sample.color == particle.color,
    {
        TrailParticle { position: particle.position, color: particle.color }
    }

    /// The circle for this snapshot at rank `ix` of a tail of `size`
    /// snapshots, rank zero being the oldest. Its radius is half the rank.
    /// Within the ramp's range the opacity floor always wins.
    pub fn draw(&self, size: usize, ix: usize) -> (circle: Circle)
        requires
            ix < size,
            ix <= RGB_SIZE,
        ensures
            circle == self.circle(size as int, ix as int),
            circle.center == self.position,
            circle.radius == HALF_UNIT * ix,
            circle.color == self.color.with_alpha(MAX_ALPHA),
    {
        let ramp: i64 = BASE_ALPHA + scale(RGB_SIZE, ix) / (RGB_SIZE as i64);
        let new_alpha: i64 = if ramp > MAX_ALPHA { ramp } else { MAX_ALPHA };
        Circle {
            center: self.position,
            radius: scale(size, ix),
            color: Color {
                red: self.color.red,
                green: self.color.green,
                blue: self.color.blue,
                alpha: new_alpha,
            },
        }
    }
}

} // verus!

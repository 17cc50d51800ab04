//! One agent of the flock, and the rules that concern it alone.

use vstd::prelude::*;
use crate::config::Config;
use crate::fixed::{Fixed, SCALE};
use crate::model::{steer, towards_unit, Agent};
use crate::vector::Vec2;

verus! {

/// An agent: where it is and how it moves.
#[derive(Clone, Copy, Debug, PartialEq, Eq, Structural)]
pub struct Boid {
    pub pos: Vec2,
    pub vel: Vec2,
}

impl View for Boid {
    type V = Agent;

    open spec fn view(&self) -> Agent {
        Agent { pos: self.pos@, vel: self.vel@ }
    }
}

/// The agents that a sequence of boids stands for.
pub open spec fn agents_of(boids: Seq<Boid>) -> Seq<Agent> {
    Seq::new(boids.len(), |i: int| boids[i]@)
}

/// The random draws that one new agent takes.
#[derive(Clone, Copy, Debug, PartialEq, Eq, Structural)]
pub struct Draw {
    /// Two independent draws, uniform between 0 and 1.
    pub unit: Vec2,
    /// Two independent standard normal draws.
    pub normal: Vec2,
}

/// Steering on one axis: one unit back towards the interval from 0 to 1
/// from outside it, nothing inside it.
pub fn towards_unit_axis(x: Fixed) -> (r: Fixed)
    ensures
        r@ == towards_unit(x@),
{
    if x.raw < 0 {
        Fixed { raw: SCALE }
    } else if x.raw > SCALE {
        Fixed { raw: -SCALE }
    } else {
        Fixed { raw: 0 }
    }
}

/// Steering of an agent at `pos` back towards the unit square.
pub fn steer_to_unit(pos: Vec2) -> (r: Vec2)
    ensures
        r@ == steer(pos@),
{
    Vec2 { x: towards_unit_axis(pos.x), y: towards_unit_axis(pos.y) }
}

impl Boid {
    /// A new agent: placed at the uniform draws, with the normal draws
    /// spread to the velocity that the cruising speed asks for.
    pub fn spawn(config: &Config, draw: Draw) -> (r: Boid)
        ensures
            r@ == config@.spawn(draw.unit@, draw.normal@),
    {
        Boid { pos: draw.unit, vel: draw.normal.scaled(config.velocity_spread()) }
    }

    /// The agent after moving with its velocity for the time `dt`.
    pub fn moved(self, dt: Fixed) -> (r: Boid)
        ensures
            r@ == self@.moved(dt@),
    {
        Boid { pos: self.pos.plus(self.vel.scaled(dt)), vel: self.vel }
    }

    /// The agent after accelerating by `accel` for the time `dt`.
    pub fn pushed(self, accel: Vec2, dt: Fixed) -> (r: Boid)
        ensures
            r@ == self@.pushed(accel@, dt@),
    {
        Boid { pos: self.pos, vel: self.vel.plus(accel.scaled(dt)) }
    }
}

} // verus!

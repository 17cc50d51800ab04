//! The flock as mathematics.
//!
//! Scalars are integers counting billionths, vectors are pairs of them, and
//! a flock is a sequence of agents together with the parameters of its
//! rules. Everything the executable engine promises is stated over these.

use vstd::prelude::*;
use crate::fixed::{fx_add, fx_mul, fx_sqrt, fx_sub, in_range, quot, root, saturate, SCALE};

verus! {

/// The component `x` of a vector of squared length `hh`, after the vector
/// is brought to the length `len`: `x * len` divided by the square root of
/// `hh`, rounded towards zero. Exact: the magnitude is the largest `t` with
/// `t * t * hh <= (x * len) * (x * len)`. Meaningful for `hh > 0`.
pub open spec fn rescaled_axis(x: int, len: int, hh: int) -> int {
    let magnitude = root((((x * len) * (x * len)) / hh) as nat) as int;
    if x * len >= 0 {
        magnitude
    } else {
        -magnitude
    }
}

/// A vector of the plane, in raw units.
pub struct Vector {
    pub x: int,
    pub y: int,
}

impl Vector {
    /// The zero vector.
    pub open spec fn zero() -> Vector {
        Vector { x: 0, y: 0 }
    }

    /// Whether both components are values that raw scalars can hold.
    pub open spec fn in_range(self) -> bool {
        in_range(self.x) && in_range(self.y)
    }

    /// Componentwise saturating sum.
    pub open spec fn plus(self, rhs: Vector) -> Vector {
        Vector { x: fx_add(self.x, rhs.x), y: fx_add(self.y, rhs.y) }
    }

    /// Componentwise saturating difference.
    pub open spec fn minus(self, rhs: Vector) -> Vector {
        Vector { x: fx_sub(self.x, rhs.x), y: fx_sub(self.y, rhs.y) }
    }

    /// The vector with both components multiplied by the scalar `k`.
    pub open spec fn scaled(self, k: int) -> Vector {
        Vector { x: fx_mul(self.x, k), y: fx_mul(self.y, k) }
    }

    /// The exact dot product, in squared raw units.
    pub open spec fn dot(self, rhs: Vector) -> int {
        self.x * rhs.x + self.y * rhs.y
    }

    /// The exact squared length, in squared raw units.
    pub open spec fn norm_squared(self) -> int {
        self.x * self.x + self.y * self.y
    }

    /// The vector of the same direction and of length `len`, each component
    /// rounded towards zero; the zero vector stays. A negative `len` turns
    /// the vector round.
    pub open spec fn rescaled(self, len: int) -> Vector {
        if self == Vector::zero() {
            Vector::zero()
        } else {
            Vector {
                x: saturate(rescaled_axis(self.x, len, self.norm_squared())),
                y: saturate(rescaled_axis(self.y, len, self.norm_squared())),
            }
        }
    }
}

/// One agent of the flock.
pub struct Agent {
    pub pos: Vector,
    pub vel: Vector,
}

impl Agent {
    /// The agent after moving with its velocity for the time `dt`.
    pub open spec fn moved(self, dt: int) -> Agent {
        Agent { pos: self.pos.plus(self.vel.scaled(dt)), vel: self.vel }
    }

    /// The agent after accelerating by `accel` for the time `dt`.
    pub open spec fn pushed(self, accel: Vector, dt: int) -> Agent {
        Agent { pos: self.pos, vel: self.vel.plus(accel.scaled(dt)) }
    }
}

/// The parameters of the flocking rules, each a scalar.
pub struct Params {
    /// Cosine of the widest angle between an agent's heading and the
    /// direction of a flockmate that it still sees.
    pub vision_cos: int,
    /// The distance that flockmates keep from one another.
    pub crowd_radius: int,
    /// The distance up to which agents are flockmates.
    pub flock_radius: int,
    /// Weight of cohesion and separation.
    pub accel_factor: int,
    /// Weight of alignment.
    pub align_factor: int,
    /// The speed of an agent left alone.
    pub alone_vel: int,
    /// Weight of the return to that speed.
    pub keep_vel_factor: int,
}

/// Steering on one axis: one unit back towards the interval from 0 to 1
/// from outside it, nothing inside it.
pub open spec fn towards_unit(x: int) -> int {
    if x < 0 {
        SCALE as int
    } else if x > SCALE {
        -SCALE
    } else {
        0
    }
}

/// Steering back towards the unit square: constant on each axis, however
/// far outside the agent is.
pub open spec fn steer(pos: Vector) -> Vector {
    Vector { x: towards_unit(pos.x), y: towards_unit(pos.y) }
}

/// Standard deviation of each velocity component of a new agent: the square
/// root of half the cruising speed `v0`.
pub open spec fn velocity_spread(v0: int) -> int {
    fx_sqrt(quot(v0, 2))
}

impl Params {
    /// Whether an agent heading along `heading` sees a flockmate displaced
    /// from it by `d`: the cosine of the angle between the two is at least
    /// `vision_cos`. Exact: the cosine is the dot product over the product
    /// of the lengths, and the comparison is made on the squares, by the
    /// signs. An agent at rest sees all around.
    pub open spec fn in_cone(self, heading: Vector, d: Vector) -> bool {
        let dot = heading.dot(d);
        let hh = heading.norm_squared();
        let dd = d.norm_squared();
        let c = self.vision_cos;
        ||| heading == Vector::zero()
        ||| c <= 0 && (dot >= 0 || dot * dot * SCALE * SCALE <= c * c * hh * dd)
        ||| c > 0 && dot >= 0 && dot * dot * SCALE * SCALE >= c * c * hh * dd
    }

    /// Whether a displacement `d` is within the flock radius. Exact.
    pub open spec fn in_radius(self, d: Vector) -> bool {
        d.norm_squared() <= self.flock_radius * self.flock_radius
    }

    /// Cohesion and separation: towards a flockmate displaced by `d`, short
    /// of it by the crowd radius.
    pub open spec fn cohesion(self, d: Vector) -> Vector {
        d.minus(d.rescaled(self.crowd_radius)).scaled(self.accel_factor)
    }

    /// Alignment: towards the velocity of a flockmate.
    pub open spec fn alignment(self, own: Vector, other: Vector) -> Vector {
        other.minus(own).scaled(self.align_factor)
    }

    /// Return to cruising speed: towards the velocity of the same direction
    /// and of length `alone_vel`. Nothing for an agent at rest.
    pub open spec fn cruise(self, vel: Vector) -> Vector {
        vel.rescaled(self.alone_vel).minus(vel).scaled(self.keep_vel_factor)
    }

    /// A new agent from two uniform draws `u` on the unit square and two
    /// standard normal draws `z`.
    pub open spec fn spawn(self, u: Vector, z: Vector) -> Agent {
        Agent { pos: u, vel: z.scaled(velocity_spread(self.alone_vel)) }
    }
}

/// A flock: its agents in a fixed order, and the parameters of its rules.
pub struct Flock {
    pub agents: Seq<Agent>,
    pub params: Params,
}

impl Flock {
    /// Whether agent `i` responds to agent `j`: another agent, elsewhere,
    /// seen and near.
    pub open spec fn interacts(self, i: int, j: int) -> bool {
        let a = self.agents[i];
        let b = self.agents[j];
        let d = b.pos.minus(a.pos);
        &&& j != i
        &&& b.pos != a.pos
        &&& self.params.in_cone(a.vel, d)
        &&& self.params.in_radius(d)
    }

    /// What agent `j` adds to the flocking term `sum` of agent `i`.
    pub open spec fn joined(self, sum: Vector, i: int, j: int) -> Vector {
        let a = self.agents[i];
        let b = self.agents[j];
        sum.plus(self.params.cohesion(b.pos.minus(a.pos))).plus(
            self.params.alignment(a.vel, b.vel),
        )
    }

    /// The flocking term of agent `i` as far as the first `k` agents go.
    pub open spec fn flocking_upto(self, i: int, k: int) -> Vector
        decreases k,
    {
        if k <= 0 {
            Vector::zero()
        } else {
            let sum = self.flocking_upto(i, k - 1);
            if self.interacts(i, k - 1) {
                self.joined(sum, i, k - 1)
            } else {
                sum
            }
        }
    }

    /// The flocking term of agent `i`: cohesion, separation and alignment
    /// summed over the agents that it responds to, in their order.
    pub open spec fn flocking(self, i: int) -> Vector {
        self.flocking_upto(i, self.agents.len() as int)
    }

    /// The acceleration of agent `i`.
    pub open spec fn acceleration(self, i: int) -> Vector {
        let a = self.agents[i];
        self.flocking(i).plus(self.params.cruise(a.vel)).plus(steer(a.pos))
    }

    /// The flock after every agent has moved for the time `dt`.
    pub open spec fn advance_positions(self, dt: int) -> Flock {
        Flock {
            agents: Seq::new(self.agents.len(), |i: int| self.agents[i].moved(dt)),
            params: self.params,
        }
    }

    /// The flock after every agent has accelerated for the time `dt`, each
    /// by the acceleration that it has in this flock.
    pub open spec fn advance_velocities(self, dt: int) -> Flock {
        Flock {
            agents: Seq::new(
                self.agents.len(),
                |i: int| self.agents[i].pushed(self.acceleration(i), dt),
            ),
            params: self.params,
        }
    }

    /// One tick: positions first, then velocities.
    pub open spec fn tick(self, dt: int) -> Flock {
        self.advance_positions(dt).advance_velocities(dt)
    }

    /// The flock after one tick for each of the time steps `dts`, in order.
    pub open spec fn run(self, dts: Seq<int>) -> Flock
        decreases dts.len(),
    {
        if dts.len() == 0 {
            self
        } else {
            self.run(dts.drop_last()).tick(dts.last())
        }
    }
}

} // verus!

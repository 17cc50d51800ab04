//! The parameters of the flocking rules and their standard values.

use vstd::prelude::*;
use crate::fixed::{magnitude, square, Fixed, SCALE};
use crate::lemmas::lemma_cauchy_schwarz;
use crate::model::Vector;
use crate::wide::Wide;
use crate::model::{velocity_spread, Params};
use crate::vector::Vec2;

verus! {

/// Agents in a flock of the standard size.
pub const BOID_COUNT: usize = 50;

/// Radius of the disc that stands for an agent: 0.01.
pub const BOID_RADIUS: i64 = 10_000_000;

/// Cosine of the vision angle of 2 radians: -0.416146837.
pub const VISION_COS: i64 = -416_146_837;

/// The crowd radius: 0.1.
pub const CROWD_RADIUS: i64 = 100_000_000;

/// The flock radius: 0.2.
pub const FLOCK_RADIUS: i64 = 200_000_000;

/// Weight of cohesion and separation: 10.
pub const ACCEL_FACTOR: i64 = 10_000_000_000;

/// Weight of alignment: 0.5.
pub const ALIGN_FACTOR: i64 = 500_000_000;

/// The cruising speed: 0.5.
pub const ALONE_VEL: i64 = 500_000_000;

/// Weight of the return to cruising speed: 10.
pub const KEEP_VEL_FACTOR: i64 = 10_000_000_000;

/// The parameters of the standard flock.
pub open spec fn standard_params() -> Params {
    Params {
        vision_cos: VISION_COS as int,
        crowd_radius: CROWD_RADIUS as int,
        flock_radius: FLOCK_RADIUS as int,
        accel_factor: ACCEL_FACTOR as int,
        align_factor: ALIGN_FACTOR as int,
        alone_vel: ALONE_VEL as int,
        keep_vel_factor: KEEP_VEL_FACTOR as int,
    }
}

/// The parameters of the flocking rules. A flock gets them once, when it is
/// made.
#[derive(Clone, Copy, Debug, PartialEq, Eq, Structural)]
pub struct Config {
    /// Cosine of the widest angle between an agent's heading and the
    /// direction of a flockmate that it still sees.
    pub vision_cos: Fixed,
    /// The distance that flockmates keep from one another.
    pub crowd_radius: Fixed,
    /// The distance up to which agents are flockmates.
    pub flock_radius: Fixed,
    /// Weight of cohesion and separation.
    pub accel_factor: Fixed,
    /// Weight of alignment.
    pub align_factor: Fixed,
    /// The speed of an agent left alone.
    pub alone_vel: Fixed,
    /// Weight of the return to that speed.
    pub keep_vel_factor: Fixed,
}

impl View for Config {
    type V = Params;

    open spec fn view(&self) -> Params {
        Params {
            vision_cos: self.vision_cos@,
            crowd_radius: self.crowd_radius@,
            flock_radius: self.flock_radius@,
            accel_factor: self.accel_factor@,
            align_factor: self.align_factor@,
            alone_vel: self.alone_vel@,
            keep_vel_factor: self.keep_vel_factor@,
        }
    }
}

impl Default for Config {
    /// The parameters of the standard flock.
    fn default() -> (r: Config)
        ensures
            r@ == standard_params(),
    {
        Config {
            vision_cos: Fixed { raw: VISION_COS },
            crowd_radius: Fixed { raw: CROWD_RADIUS },
            flock_radius: Fixed { raw: FLOCK_RADIUS },
            accel_factor: Fixed { raw: ACCEL_FACTOR },
            align_factor: Fixed { raw: ALIGN_FACTOR },
            alone_vel: Fixed { raw: ALONE_VEL },
            keep_vel_factor: Fixed { raw: KEEP_VEL_FACTOR },
        }
    }
}

impl Config {
    /// Whether an agent heading along `heading` sees a flockmate displaced
    /// from it by `d`.
    pub fn in_cone(&self, heading: Vec2, d: Vec2) -> (r: bool)
        ensures
            r == self@.in_cone(heading@, d@),
    {
        if heading.is_zero() {
            return true;
        }
        let c: i64 = self.vision_cos.raw;
        let (behind, dot) = heading.dot(d);
        if c <= 0 && !behind {
            return true;
        }
        if c > 0 && behind {
            return false;
        }
        let hh: u128 = heading.norm_squared();
        let dd: u128 = d.norm_squared();
        let ghost s = SCALE as int;
        let ghost p = heading@.dot(d@);
        proof {
            lemma_cauchy_schwarz(heading@, d@);
            assert(hh >= 1 && (d@ != Vector::zero() ==> dd >= 1)) by (nonlinear_arith)
                requires
                    hh == heading@.x * heading@.x + heading@.y * heading@.y,
                    dd == d@.x * d@.x + d@.y * d@.y,
                    heading@.x != 0 || heading@.y != 0,
            ;
            assert(dot * dot == p * p) by (nonlinear_arith)
                requires
                    dot == p || dot == -p,
            ;
        }
        let ac: u128 = magnitude(c);
        if ac > SCALE as u128 {
            // a threshold beyond the cosines: everything is seen, or nothing
            proof {
                assert(p * p * s * s <= c * c * hh * dd && (dd >= 1 ==> p * p * s * s < c * c * hh
                    * dd)) by (nonlinear_arith)
                    requires
                        0 <= p * p <= hh * dd,
                        hh >= 1,
                        dd >= 0,
                        s > 0,
                        c > s || c < -s,
                ;
                assert(d@ == Vector::zero() ==> p == 0 && dd == 0) by (nonlinear_arith)
                    requires
                        p == heading@.x * d@.x + heading@.y * d@.y,
                        dd == d@.x * d@.x + d@.y * d@.y,
                ;
                assert(p == 0 && dd == 0 ==> p * p * s * s >= c * c * hh * dd) by (nonlinear_arith);
            }
            if c <= 0 {
                true
            } else {
                d.is_zero()
            }
        } else {
            assert(ac * ac <= 1_000_000_000 * 1_000_000_000) by (nonlinear_arith)
                requires
                    ac <= 1_000_000_000,
            ;
            let cc: u64 = (ac * ac) as u64;
            let ss: u64 = 1_000_000_000_000_000_000;
            let lhs: Wide = Wide::product(dot, dot).times(ss);
            let rhs: Wide = Wide::product(hh, dd).times(cc);
            proof {
                assert(lhs@ == p * p * s * s && rhs@ == c * c * hh * dd) by (nonlinear_arith)
                    requires
                        lhs@ == (dot * dot) * ss,
                        rhs@ == (hh * dd) * cc,
                        dot * dot == p * p,
                        ss == s * s,
                        cc == ac * ac,
                        ac == c || ac == -c,
                ;
            }
            if c <= 0 {
                lhs.at_most(&rhs)
            } else {
                rhs.at_most(&lhs)
            }
        }
    }

    /// Whether a displacement `d` is within the flock radius.
    pub fn in_radius(&self, d: Vec2) -> (r: bool)
        ensures
            r == self@.in_radius(d@),
    {
        d.norm_squared() <= square(self.flock_radius.raw)
    }

    /// Cohesion and separation for a flockmate displaced by `d`.
    pub fn cohesion(&self, d: Vec2) -> (r: Vec2)
        ensures
            r@ == self@.cohesion(d@),
    {
        d.minus(d.rescaled(self.crowd_radius)).scaled(self.accel_factor)
    }

    /// Alignment of the velocity `own` with the velocity `other` of a
    /// flockmate.
    pub fn alignment(&self, own: Vec2, other: Vec2) -> (r: Vec2)
        ensures
            r@ == self@.alignment(own@, other@),
    {
        other.minus(own).scaled(self.align_factor)
    }

    /// Return of the velocity `vel` to cruising speed.
    pub fn cruise(&self, vel: Vec2) -> (r: Vec2)
        ensures
            r@ == self@.cruise(vel@),
    {
        vel.rescaled(self.alone_vel).minus(vel).scaled(self.keep_vel_factor)
    }

    /// Standard deviation of each velocity component of a new agent.
    pub fn velocity_spread(&self) -> (r: Fixed)
        ensures
            r@ == velocity_spread(self@.alone_vel),
    {
        Fixed { raw: self.alone_vel.raw / 2 }.sqrt()
    }
}

} // verus!

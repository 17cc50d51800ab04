//! The flock and its update engine.

use vstd::prelude::*;
use crate::boid::{agents_of, steer_to_unit, Boid, Draw};
use crate::config::Config;
use crate::fixed::Fixed;
use crate::model::Flock;
use crate::vector::Vec2;

verus! {

/// A flock of boids with the parameters of its rules. Its size is that of
/// the day it was made.
pub struct App {
    boids: Vec<Boid>,
    config: Config,
}

impl View for App {
    type V = Flock;

    closed spec fn view(&self) -> Flock {
        Flock { agents: agents_of(self.boids@), params: self.config@ }
    }
}

impl App {
    /// A flock of one agent for each element of `draws`, in their order.
    pub fn new(config: Config, draws: &Vec<Draw>) -> (app: App)
        ensures
            app@.params == config@,
            app@.agents.len() == draws@.len(),
            forall|i: int|
                0 <= i < draws@.len() ==> #[trigger] app@.agents[i] == config@.spawn(
                    draws@[i].unit@,
                    draws@[i].normal@,
                ),
    {
        let n = draws.len();
        let mut boids: Vec<Boid> = Vec::new();
        let mut i: usize = 0;
        while i < n
            invariant
                i <= n,
                n == draws@.len(),
                boids@.len() == i,
                forall|k: int|
                    0 <= k < i ==> #[trigger] boids@[k]@ == config@.spawn(
                        draws@[k].unit@,
                        draws@[k].normal@,
                    ),
            decreases n - i,
        {
            boids.push(Boid::spawn(&config, draws[i]));
            i += 1;
        }
        App { boids, config }
    }

    /// A flock of the given agents, in their order.
    pub fn with_boids(config: Config, boids: Vec<Boid>) -> (app: App)
        ensures
            app@ == (Flock { agents: agents_of(boids@), params: config@ }),
    {
        App { boids, config }
    }

    /// Every scalar of a flock is one that a raw value can hold.
    pub proof fn lemma_scalars_in_range(&self)
        ensures
            forall|i: int|
                0 <= i < self@.agents.len() ==> (#[trigger] self@.agents[i]).pos.in_range()
                    && self@.agents[i].vel.in_range(),
    {
    }

    /// The agents, in their order.
    pub fn boids(&self) -> (r: &Vec<Boid>)
        ensures
            agents_of(r@) == self@.agents,
    {
        &self.boids
    }

    /// The parameters that the flock was made with.
    pub fn config(&self) -> (r: Config)
        ensures
            r@ == self@.params,
    {
        self.config
    }

    /// Whether agent `i` responds to agent `j`.
    pub fn interacts(&self, i: usize, j: usize) -> (r: bool)
        requires
            i < self@.agents.len(),
            j < self@.agents.len(),
        ensures
            r == self@.interacts(i as int, j as int),
    {
        let a = self.boids[i];
        let b = self.boids[j];
        if j == i || b.pos.same(a.pos) {
            false
        } else {
            let d = b.pos.minus(a.pos);
            self.config.in_radius(d) && self.config.in_cone(a.vel, d)
        }
    }

    /// The flocking term of agent `i`.
    pub fn flocking(&self, i: usize) -> (r: Vec2)
        requires
            i < self@.agents.len(),
        ensures
            r@ == self@.flocking(i as int),
    {
        let n = self.boids.len();
        let a = self.boids[i];
        let mut sum = Vec2::zero();
        let mut j: usize = 0;
        while j < n
            invariant
                j <= n,
                i < n,
                n == self.boids@.len(),
                a == self.boids@[i as int],
                sum@ == self@.flocking_upto(i as int, j as int),
            decreases n - j,
        {
            if self.interacts(i, j) {
                let b = self.boids[j];
                let d = b.pos.minus(a.pos);
                sum = sum.plus(self.config.cohesion(d)).plus(self.config.alignment(a.vel, b.vel));
            }
            j += 1;
        }
        sum
    }

    /// The acceleration of agent `i`.
    pub fn acceleration(&self, i: usize) -> (r: Vec2)
        requires
            i < self@.agents.len(),
        ensures
            r@ == self@.acceleration(i as int),
    {
        let a = self.boids[i];
        self.flocking(i).plus(self.config.cruise(a.vel)).plus(steer_to_unit(a.pos))
    }

    /// Moves every agent with its velocity for the time `dt`.
    pub fn update_pos(&mut self, dt: Fixed)
        ensures
            final(self)@ == old(self)@.advance_positions(dt@),
    {
        let n = self.boids.len();
        let mut i: usize = 0;
        while i < n
            invariant
                i <= n,
                n == self.boids@.len(),
                n == old(self).boids@.len(),
                self.config == old(self).config,
                forall|k: int| 0 <= k < i ==> self.boids@[k]@ == old(self).boids@[k]@.moved(dt@),
                forall|k: int| i <= k < n ==> self.boids@[k] == old(self).boids@[k],
            decreases n - i,
        {
            let b = self.boids[i];
            self.boids.set(i, b.moved(dt));
            i += 1;
        }
        assert(self@.agents =~= old(self)@.advance_positions(dt@).agents);
    }

    /// Accelerates every agent for the time `dt`, each by the acceleration
    /// that it has before any velocity changes.
    pub fn update_vel(&mut self, dt: Fixed)
        ensures
            final(self)@ == old(self)@.advance_velocities(dt@),
    {
        let n = self.boids.len();
        let mut accels: Vec<Vec2> = Vec::new();
        let mut i: usize = 0;
        while i < n
            invariant
                i <= n,
                n == self.boids@.len(),
                *self == *old(self),
                accels@.len() == i,
                forall|k: int| 0 <= k < i ==> accels@[k]@ == self@.acceleration(k),
            decreases n - i,
        {
            accels.push(self.acceleration(i));
            i += 1;
        }
        let mut i: usize = 0;
        while i < n
            invariant
                i <= n,
                n == self.boids@.len(),
                n == old(self).boids@.len(),
                self.config == old(self).config,
                accels@.len() == n,
                forall|k: int| 0 <= k < n ==> accels@[k]@ == old(self)@.acceleration(k),
                forall|k: int|
                    0 <= k < i ==> self.boids@[k]@ == old(self).boids@[k]@.pushed(
                        accels@[k]@,
                        dt@,
                    ),
                forall|k: int| i <= k < n ==> self.boids@[k] == old(self).boids@[k],
            decreases n - i,
        {
            let b = self.boids[i];
            self.boids.set(i, b.pushed(accels[i], dt));
            i += 1;
        }
        assert(self@.agents =~= old(self)@.advance_velocities(dt@).agents);
    }

    /// One tick of the simulation: positions first, then velocities.
    pub fn tick(&mut self, dt: Fixed)
        ensures
            final(self)@ == old(self)@.tick(dt@),
    {
        self.update_pos(dt);
        self.update_vel(dt);
    }
}

} // verus!

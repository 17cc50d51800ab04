//! What holds of every flock.

use vstd::prelude::*;
use vstd::arithmetic::mul::lemma_mul_inequality;
use crate::fixed::{fx_add, fx_mul, fx_sub, in_range, quot, saturate, SCALE};
use crate::lemmas::{
    lemma_cauchy_schwarz, lemma_quot_bracket, lemma_quot_monotone, lemma_quot_of_sum,
    lemma_quotient_bound, lemma_quotient_of_root, lemma_root_of_quotient,
};
use crate::model::{rescaled_axis, steer, Agent, Flock, Params, Vector};

verus! {

/// A flock keeps its size and its parameters through any number of ticks,
/// whatever the time steps.
pub proof fn law_flock_size_is_invariant(flock: Flock, dts: Seq<int>)
    ensures
        flock.run(dts).agents.len() == flock.agents.len(),
        flock.run(dts).params == flock.params,
    decreases dts.len(),
{
    if dts.len() > 0 {
        law_flock_size_is_invariant(flock, dts.drop_last());
    }
}

/// Neither half of a tick changes the size of the flock, and the first
/// leaves velocities alone as the second leaves positions.
pub proof fn law_updates_keep_what_they_do_not_move(flock: Flock, dt: int)
    ensures
        flock.advance_positions(dt).agents.len() == flock.agents.len(),
        flock.advance_velocities(dt).agents.len() == flock.agents.len(),
        forall|i: int|
            0 <= i < flock.agents.len() ==> #[trigger] flock.advance_positions(dt).agents[i].vel
                == flock.agents[i].vel,
        forall|i: int|
            0 <= i < flock.agents.len() ==> #[trigger] flock.advance_velocities(dt).agents[i].pos
                == flock.agents[i].pos,
{
}

/// The product of a scalar by the negated scalar `k` is the negated product.
proof fn lemma_mul_negated(a: int, k: int)
    ensures
        quot(a * (-k), SCALE as int) == -quot(a * k, SCALE as int),
{
    assert(a * (-k) == -(a * k)) by (nonlinear_arith);
}

/// The position update is linear in the time step: as long as nothing
/// saturates, each coordinate of each agent moves by the product of its
/// velocity and the time step, rounded towards zero, whatever the sign of
/// the time step; the velocity stays.
pub proof fn law_position_update_is_linear(flock: Flock, i: int, dt: int)
    requires
        0 <= i < flock.agents.len(),
        in_range(quot(flock.agents[i].vel.x * dt, SCALE as int)),
        in_range(quot(flock.agents[i].vel.y * dt, SCALE as int)),
        in_range(flock.agents[i].pos.x + quot(flock.agents[i].vel.x * dt, SCALE as int)),
        in_range(flock.agents[i].pos.y + quot(flock.agents[i].vel.y * dt, SCALE as int)),
    ensures
        flock.advance_positions(dt).agents[i].pos.x == flock.agents[i].pos.x + quot(
            flock.agents[i].vel.x * dt,
            SCALE as int,
        ),
        flock.advance_positions(dt).agents[i].pos.y == flock.agents[i].pos.y + quot(
            flock.agents[i].vel.y * dt,
            SCALE as int,
        ),
        flock.advance_positions(dt).agents[i].vel == flock.agents[i].vel,
{
}

/// A time step of zero moves no agent.
pub proof fn law_zero_time_step_moves_nothing(flock: Flock)
    requires
        forall|i: int|
            0 <= i < flock.agents.len() ==> (#[trigger] flock.agents[i]).pos.in_range(),
    ensures
        flock.advance_positions(0) == flock,
{
    assert forall|i: int| 0 <= i < flock.agents.len() implies flock.agents[i].moved(0)
        == flock.agents[i] by {
        let a = flock.agents[i];
        assert(a.pos.in_range());
        assert(a.vel.x * 0 == 0 && a.vel.y * 0 == 0) by (nonlinear_arith);
    }
    assert(flock.advance_positions(0).agents =~= flock.agents);
}

/// A negative time step reverses motion: moving for `dt` and then for `-dt`
/// brings an agent back, as long as the first move does not saturate.
pub proof fn law_negative_time_step_reverses(a: Agent, dt: int)
    requires
        a.pos.in_range(),
        in_range(quot(a.vel.x * dt, SCALE as int)),
        in_range(quot(a.vel.y * dt, SCALE as int)),
        in_range(a.pos.x + quot(a.vel.x * dt, SCALE as int)),
        in_range(a.pos.y + quot(a.vel.y * dt, SCALE as int)),
        in_range(-quot(a.vel.x * dt, SCALE as int)),
        in_range(-quot(a.vel.y * dt, SCALE as int)),
    ensures
        a.moved(dt).moved(-dt) == a,
{
    lemma_mul_negated(a.vel.x, dt);
    lemma_mul_negated(a.vel.y, dt);
}

/// Moves add up: as long as nothing saturates, moving for `s` and then for
/// `t` brings an agent to within one raw unit, on each axis, of where
/// moving for `s + t` brings it. The unit is the rounding of the products.
pub proof fn law_position_updates_add_up(a: Agent, s: int, t: int)
    requires
        a.pos.in_range(),
        in_range(quot(a.vel.x * s, SCALE as int)),
        in_range(quot(a.vel.y * s, SCALE as int)),
        in_range(quot(a.vel.x * t, SCALE as int)),
        in_range(quot(a.vel.y * t, SCALE as int)),
        in_range(quot(a.vel.x * (s + t), SCALE as int)),
        in_range(quot(a.vel.y * (s + t), SCALE as int)),
        in_range(a.pos.x + quot(a.vel.x * s, SCALE as int)),
        in_range(a.pos.y + quot(a.vel.y * s, SCALE as int)),
        in_range(a.pos.x + quot(a.vel.x * s, SCALE as int) + quot(a.vel.x * t, SCALE as int)),
        in_range(a.pos.y + quot(a.vel.y * s, SCALE as int) + quot(a.vel.y * t, SCALE as int)),
        in_range(a.pos.x + quot(a.vel.x * (s + t), SCALE as int)),
        in_range(a.pos.y + quot(a.vel.y * (s + t), SCALE as int)),
    ensures
        -1 <= a.moved(s + t).pos.x - a.moved(s).moved(t).pos.x <= 1,
        -1 <= a.moved(s + t).pos.y - a.moved(s).moved(t).pos.y <= 1,
        a.moved(s + t).vel == a.moved(s).moved(t).vel,
{
    assert(a.vel.x * (s + t) == a.vel.x * s + a.vel.x * t && a.vel.y * (s + t) == a.vel.y * s
        + a.vel.y * t) by (nonlinear_arith);
    lemma_quot_of_sum(a.vel.x * s, a.vel.x * t, SCALE as int);
    lemma_quot_of_sum(a.vel.y * s, a.vel.y * t, SCALE as int);
}

/// An agent that responds to no other has no flocking term: its
/// acceleration is the return to cruising speed and the steering towards
/// the unit square, and nothing else.
pub proof fn law_isolated_agent_has_no_flocking_term(flock: Flock, i: int)
    requires
        0 <= i < flock.agents.len(),
        forall|j: int| 0 <= j < flock.agents.len() ==> !flock.interacts(i, j),
    ensures
        flock.flocking(i) == Vector::zero(),
        flock.acceleration(i) == flock.params.cruise(flock.agents[i].vel).plus(
            steer(flock.agents[i].pos),
        ),
{
    lemma_no_response_no_term(flock, i, flock.agents.len() as int);
    let cruise = flock.params.cruise(flock.agents[i].vel);
    assert(Vector::zero().plus(cruise) == cruise);
}

/// The flocking term over the first `k` agents is zero if agent `i`
/// responds to none of them.
proof fn lemma_no_response_no_term(flock: Flock, i: int, k: int)
    requires
        0 <= k <= flock.agents.len(),
        forall|j: int| 0 <= j < k ==> !flock.interacts(i, j),
    ensures
        flock.flocking_upto(i, k) == Vector::zero(),
    decreases k,
{
    if k > 0 {
        lemma_no_response_no_term(flock, i, k - 1);
    }
}

/// What rescaling does to one component `x` of a vector of squared length
/// `hh`: the result is no larger than the length asked for, keeps the side
/// of `x` for a length that is not negative, and lies beyond `x` if the
/// vector is shorter than asked, short of it if the vector is longer.
proof fn lemma_rescaled_axis(x: int, len: int, hh: int)
    requires
        hh > 0,
        x * x <= hh,
    ensures
        ({
            let t = rescaled_axis(x, len, hh);
            &&& t * t * hh <= (x * len) * (x * len)
            &&& t * t <= len * len
            &&& -len <= t <= len || len <= t <= -len
            &&& len >= 0 && x >= 0 ==> t >= 0
            &&& len >= 0 && x <= 0 ==> t <= 0
            &&& len >= 0 && hh <= len * len && x >= 0 ==> t >= x
            &&& len >= 0 && hh <= len * len && x <= 0 ==> t <= x
            &&& len >= 0 && hh >= len * len && x >= 0 ==> t <= x
            &&& len >= 0 && hh >= len * len && x <= 0 ==> t >= x
        }),
{
    let m = (x * len) * (x * len);
    assert(m >= 0) by (nonlinear_arith)
        requires
            m == (x * len) * (x * len),
    ;
    lemma_quotient_of_root(m, hh);
    let r = root_of_quotient(m, hh);
    let t = rescaled_axis(x, len, hh);
    assert(t == r || t == -r);
    assert(t * t == r * r) by (nonlinear_arith)
        requires
            t == r || t == -r,
    ;
    assert(r * r <= len * len) by (nonlinear_arith)
        requires
            r * r * hh <= m,
            m == (x * len) * (x * len),
            x * x <= hh,
            hh > 0,
            r >= 0,
    ;
    assert(-len <= r <= len || len <= r <= -len) by (nonlinear_arith)
        requires
            r * r <= len * len,
            r >= 0,
    ;
    assert(x * len == 0 ==> r == 0) by (nonlinear_arith)
        requires
            r * r * hh <= m,
            m == (x * len) * (x * len),
            hh > 0,
            r >= 0,
    ;
    assert(len >= 0 && x >= 0 ==> x * len >= 0) by (nonlinear_arith);
    assert(len >= 0 && x <= 0 ==> x * len <= 0) by (nonlinear_arith);
    if len >= 0 && hh <= len * len {
        assert(x * x < (r + 1) * (r + 1)) by (nonlinear_arith)
            requires
                m < (r + 1) * (r + 1) * hh,
                m == (x * len) * (x * len),
                hh <= len * len,
                hh > 0,
        ;
        assert(x <= r && -x <= r) by (nonlinear_arith)
            requires
                x * x < (r + 1) * (r + 1),
                r >= 0,
        ;
    }
    if len >= 0 && hh >= len * len {
        assert(r * r <= x * x) by (nonlinear_arith)
            requires
                r * r * hh <= m,
                m == (x * len) * (x * len),
                hh >= len * len,
                hh > 0,
                r >= 0,
        ;
        assert(r <= x || r <= -x) by (nonlinear_arith)
            requires
                r * r <= x * x,
                r >= 0,
        ;
    }
}

/// The magnitude of a rescaled component: the integer square root of a
/// quotient.
spec fn root_of_quotient(m: int, hh: int) -> int {
    crate::fixed::root((m / hh) as nat) as int
}

/// A rescaled vector is no longer than the length asked for, and each of
/// its components is the exact one rounded towards zero: one unit more in
/// magnitude would be too much.
pub proof fn law_rescaled_is_no_longer_than_asked(v: Vector, len: int)
    requires
        v != Vector::zero(),
    ensures
        v.rescaled(len).norm_squared() <= len * len,
        ({
            let hh = v.norm_squared();
            let t = rescaled_axis(v.x, len, hh);
            let u = rescaled_axis(v.y, len, hh);
            &&& t * t * hh <= (v.x * len) * (v.x * len)
            &&& u * u * hh <= (v.y * len) * (v.y * len)
            &&& t >= 0 ==> (t + 1) * (t + 1) * hh > (v.x * len) * (v.x * len)
            &&& t <= 0 ==> (t - 1) * (t - 1) * hh > (v.x * len) * (v.x * len)
            &&& u >= 0 ==> (u + 1) * (u + 1) * hh > (v.y * len) * (v.y * len)
            &&& u <= 0 ==> (u - 1) * (u - 1) * hh > (v.y * len) * (v.y * len)
        }),
{
    let hh = v.norm_squared();
    assert(hh > 0 && v.x * v.x <= hh && v.y * v.y <= hh) by (nonlinear_arith)
        requires
            hh == v.x * v.x + v.y * v.y,
            v.x != 0 || v.y != 0,
    ;
    lemma_rescaled_axis(v.x, len, hh);
    lemma_rescaled_axis(v.y, len, hh);
    let t = rescaled_axis(v.x, len, hh);
    let u = rescaled_axis(v.y, len, hh);
    let a = v.rescaled(len).x;
    let b = v.rescaled(len).y;
    // saturation only shortens
    assert(a * a <= t * t && b * b <= u * u) by (nonlinear_arith)
        requires
            (0 <= a <= t) || (t <= a <= 0),
            (0 <= b <= u) || (u <= b <= 0),
    ;
    let (tt, uu, ll) = (t * t, u * u, len * len);
    assert((v.x * len) * (v.x * len) == (v.x * v.x) * ll && (v.y * len) * (v.y * len) == (v.y
        * v.y) * ll) by (nonlinear_arith)
        requires
            ll == len * len,
    ;
    assert((tt + uu) * hh == tt * hh + uu * hh && (v.x * v.x) * ll + (v.y * v.y) * ll == ll * hh)
        by (nonlinear_arith)
        requires
            hh == v.x * v.x + v.y * v.y,
    ;
    assert(tt + uu <= ll) by (nonlinear_arith)
        requires
            (tt + uu) * hh <= ll * hh,
            hh > 0,
    ;
    let mx = (v.x * len) * (v.x * len);
    let my = (v.y * len) * (v.y * len);
    assert(mx >= 0 && my >= 0) by (nonlinear_arith)
        requires
            mx == (v.x * len) * (v.x * len),
            my == (v.y * len) * (v.y * len),
    ;
    lemma_quotient_of_root(mx, hh);
    lemma_quotient_of_root(my, hh);
    let r = root_of_quotient(mx, hh);
    let q = root_of_quotient(my, hh);
    assert((t + 1) * (t + 1) == (r + 1) * (r + 1) || (t - 1) * (t - 1) == (r + 1) * (r + 1))
        by (nonlinear_arith)
        requires
            t == r || t == -r,
    ;
    assert((u + 1) * (u + 1) == (q + 1) * (q + 1) || (u - 1) * (u - 1) == (q + 1) * (q + 1))
        by (nonlinear_arith)
        requires
            u == q || u == -q,
    ;
    assert(t >= 0 ==> t == r);
    assert(t <= 0 ==> t == -r);
    assert(t <= 0 ==> (t - 1) * (t - 1) == (r + 1) * (r + 1)) by (nonlinear_arith)
        requires
            t <= 0 ==> t == -r,
    ;
    assert(u <= 0 ==> (u - 1) * (u - 1) == (q + 1) * (q + 1)) by (nonlinear_arith)
        requires
            u <= 0 ==> u == -q,
    ;
}

/// A weight that is not negative keeps the sign of what it weighs.
proof fn lemma_weighted(diff: int, weight: int)
    requires
        weight >= 0,
    ensures
        diff >= 0 ==> fx_mul(diff, weight) >= 0,
        diff <= 0 ==> fx_mul(diff, weight) <= 0,
{
    let s = SCALE as int;
    assert(0 * weight == 0) by (nonlinear_arith);
    if diff >= 0 {
        lemma_mul_inequality(0, diff, weight);
        lemma_quot_monotone(0, diff * weight, s);
    }
    if diff <= 0 {
        lemma_mul_inequality(diff, 0, weight);
        lemma_quot_monotone(diff * weight, 0, s);
    }
}

/// The return to cruising speed pulls the speed towards the cruising speed
/// from either side: with a weight that is not negative, on each axis it
/// pushes an agent slower than the cruising speed the way it goes, and an
/// agent faster than that the other way. Its target is never faster than
/// the cruising speed.
pub proof fn law_cruise_pulls_towards_cruising_speed(params: Params, vel: Vector)
    requires
        vel.in_range(),
        vel != Vector::zero(),
        params.keep_vel_factor >= 0,
        params.alone_vel >= 0,
    ensures
        vel.rescaled(params.alone_vel).norm_squared() <= params.alone_vel * params.alone_vel,
        vel.norm_squared() <= params.alone_vel * params.alone_vel ==> {
            &&& vel.x >= 0 ==> params.cruise(vel).x >= 0
            &&& vel.x <= 0 ==> params.cruise(vel).x <= 0
            &&& vel.y >= 0 ==> params.cruise(vel).y >= 0
            &&& vel.y <= 0 ==> params.cruise(vel).y <= 0
        },
        vel.norm_squared() >= params.alone_vel * params.alone_vel ==> {
            &&& vel.x >= 0 ==> params.cruise(vel).x <= 0
            &&& vel.x <= 0 ==> params.cruise(vel).x >= 0
            &&& vel.y >= 0 ==> params.cruise(vel).y <= 0
            &&& vel.y <= 0 ==> params.cruise(vel).y >= 0
        },
{
    let hh = vel.norm_squared();
    assert(hh > 0 && vel.x * vel.x <= hh && vel.y * vel.y <= hh) by (nonlinear_arith)
        requires
            hh == vel.x * vel.x + vel.y * vel.y,
            vel.x != 0 || vel.y != 0,
    ;
    law_rescaled_is_no_longer_than_asked(vel, params.alone_vel);
    lemma_rescaled_axis(vel.x, params.alone_vel, hh);
    lemma_rescaled_axis(vel.y, params.alone_vel, hh);
    let target = vel.rescaled(params.alone_vel);
    lemma_weighted(fx_sub(target.x, vel.x), params.keep_vel_factor);
    lemma_weighted(fx_sub(target.y, vel.y), params.keep_vel_factor);
}

/// Cohesion and separation meet at the crowd radius: with a weight that is
/// not negative, on each axis a flockmate nearer than the crowd radius
/// pushes the agent away from it, and one farther than that pulls the agent
/// towards it. What is taken off the displacement is never longer than the
/// crowd radius.
pub proof fn law_cohesion_turns_at_the_crowd_radius(params: Params, d: Vector)
    requires
        d.in_range(),
        d != Vector::zero(),
        params.accel_factor >= 0,
        params.crowd_radius >= 0,
    ensures
        d.rescaled(params.crowd_radius).norm_squared() <= params.crowd_radius
            * params.crowd_radius,
        d.norm_squared() <= params.crowd_radius * params.crowd_radius ==> {
            &&& d.x >= 0 ==> params.cohesion(d).x <= 0
            &&& d.x <= 0 ==> params.cohesion(d).x >= 0
            &&& d.y >= 0 ==> params.cohesion(d).y <= 0
            &&& d.y <= 0 ==> params.cohesion(d).y >= 0
        },
        d.norm_squared() >= params.crowd_radius * params.crowd_radius ==> {
            &&& d.x >= 0 ==> params.cohesion(d).x >= 0
            &&& d.x <= 0 ==> params.cohesion(d).x <= 0
            &&& d.y >= 0 ==> params.cohesion(d).y >= 0
            &&& d.y <= 0 ==> params.cohesion(d).y <= 0
        },
{
    let hh = d.norm_squared();
    assert(hh > 0 && d.x * d.x <= hh && d.y * d.y <= hh) by (nonlinear_arith)
        requires
            hh == d.x * d.x + d.y * d.y,
            d.x != 0 || d.y != 0,
    ;
    law_rescaled_is_no_longer_than_asked(d, params.crowd_radius);
    lemma_rescaled_axis(d.x, params.crowd_radius, hh);
    lemma_rescaled_axis(d.y, params.crowd_radius, hh);
    let short = d.rescaled(params.crowd_radius);
    lemma_weighted(fx_sub(d.x, short.x), params.accel_factor);
    lemma_weighted(fx_sub(d.y, short.y), params.accel_factor);
}

/// A difference weighted by `keep` and then by `dt` keeps its side and does
/// not grow, as long as the two weights are not negative and their product
/// is at most one.
proof fn lemma_damped(diff: int, keep: int, dt: int)
    requires
        keep >= 0,
        dt >= 0,
        keep * dt <= SCALE * SCALE,
    ensures
        diff >= 0 ==> 0 <= fx_mul(fx_mul(diff, keep), dt) <= diff,
        diff <= 0 ==> diff <= fx_mul(fx_mul(diff, keep), dt) <= 0,
{
    let s = SCALE as int;
    // the magnitudes: n of the difference, g after the first weight
    let n = if diff >= 0 { diff } else { -diff };
    let first = fx_mul(diff, keep);
    let g = if diff >= 0 { first } else { -first };
    assert(n * keep >= 0 && diff * keep == if diff >= 0 { n * keep } else { -(n * keep) })
        by (nonlinear_arith)
        requires
            n >= 0,
            keep >= 0,
            n == diff || n == -diff,
            diff >= 0 ==> n == diff,
            diff < 0 ==> n == -diff,
    ;
    let q = (n * keep) / s;
    lemma_quotient_bound(q, n * keep, s);
    lemma_quot_monotone(0, n * keep, s);
    assert(quot(diff * keep, s) == if diff >= 0 { q } else { -q });
    assert(0 <= g <= q);
    // g * dt <= n * s
    assert(g * dt >= 0 && g * dt <= n * s) by (nonlinear_arith)
        requires
            0 <= g <= q,
            q * s <= n * keep,
            keep * dt <= s * s,
            dt >= 0,
            keep >= 0,
            n >= 0,
            s > 0,
    {
        assert(g * s <= q * s);
        assert((g * s) * dt <= (n * keep) * dt);
        assert((n * keep) * dt == n * (keep * dt));
        assert(n * (keep * dt) <= n * (s * s));
        assert((g * dt) * s <= (n * s) * s);
    }
    lemma_quot_monotone(g * dt, n * s, s);
    lemma_quot_monotone(n, n, s);
    lemma_quot_monotone(0, g * dt, s);
    let second = quot(g * dt, s);
    assert(0 <= second <= n);
    assert(first * dt == if diff >= 0 { g * dt } else { -(g * dt) }) by (nonlinear_arith)
        requires
            g == first || g == -first,
            diff >= 0 ==> g == first,
            diff < 0 ==> g == -first,
    ;
    assert(quot(first * dt, s) == if diff >= 0 { second } else { -second });
}

/// Left alone inside the unit square, an agent no faster than the cruising
/// speed rises towards it and stays below it: with a weight and a time step
/// that are not negative and whose product is at most one, the velocity
/// update moves neither component of its velocity towards zero, and leaves
/// the agent no faster than the cruising speed.
pub proof fn law_lone_slow_agent_stays_below_cruising_speed(flock: Flock, i: int, dt: int)
    requires
        0 <= i < flock.agents.len(),
        forall|j: int| 0 <= j < flock.agents.len() ==> !flock.interacts(i, j),
        0 <= flock.agents[i].pos.x <= SCALE,
        0 <= flock.agents[i].pos.y <= SCALE,
        flock.agents[i].vel.in_range(),
        flock.params.alone_vel >= 0,
        flock.agents[i].vel.norm_squared() <= flock.params.alone_vel * flock.params.alone_vel,
        flock.params.keep_vel_factor >= 0,
        dt >= 0,
        flock.params.keep_vel_factor * dt <= SCALE * SCALE,
    ensures
        ({
            let before = flock.agents[i].vel;
            let after = flock.advance_velocities(dt).agents[i].vel;
            &&& before.x >= 0 ==> after.x >= before.x
            &&& before.x <= 0 ==> after.x <= before.x
            &&& before.y >= 0 ==> after.y >= before.y
            &&& before.y <= 0 ==> after.y <= before.y
            &&& before.norm_squared() <= after.norm_squared()
            &&& after.norm_squared() <= flock.params.alone_vel * flock.params.alone_vel
        }),
{
    let params = flock.params;
    let vel = flock.agents[i].vel;
    let len = params.alone_vel;
    let keep = params.keep_vel_factor;
    let after = flock.advance_velocities(dt).agents[i].vel;
    law_isolated_agent_has_no_flocking_term(flock, i);
    let cruise = params.cruise(vel);
    assert(flock.acceleration(i) == cruise);
    if vel == Vector::zero() {
        assert(0 * keep == 0 && 0 * dt == 0 && 0 * 0 == 0) by (nonlinear_arith);
        assert(cruise == Vector::zero());
        assert(after == vel);
        assert(0 <= len * len) by (nonlinear_arith);
    } else {
        let hh = vel.norm_squared();
        assert(hh > 0 && vel.x * vel.x <= hh && vel.y * vel.y <= hh) by (nonlinear_arith)
            requires
                hh == vel.x * vel.x + vel.y * vel.y,
                vel.x != 0 || vel.y != 0,
        ;
        law_rescaled_is_no_longer_than_asked(vel, len);
        lemma_rescaled_axis(vel.x, len, hh);
        lemma_rescaled_axis(vel.y, len, hh);
        let target = vel.rescaled(len);
        lemma_damped(fx_sub(target.x, vel.x), keep, dt);
        lemma_damped(fx_sub(target.y, vel.y), keep, dt);
        assert(after.x == fx_add(vel.x, fx_mul(fx_mul(fx_sub(target.x, vel.x), keep), dt)));
        assert(after.y == fx_add(vel.y, fx_mul(fx_mul(fx_sub(target.y, vel.y), keep), dt)));
        assert((0 <= vel.x <= after.x <= target.x) || (target.x <= after.x <= vel.x <= 0));
        assert((0 <= vel.y <= after.y <= target.y) || (target.y <= after.y <= vel.y <= 0));
        assert(vel.x * vel.x <= after.x * after.x <= target.x * target.x) by (nonlinear_arith)
            requires
                (0 <= vel.x <= after.x <= target.x) || (target.x <= after.x <= vel.x <= 0),
        ;
        assert(vel.y * vel.y <= after.y * after.y <= target.y * target.y) by (nonlinear_arith)
            requires
                (0 <= vel.y <= after.y <= target.y) || (target.y <= after.y <= vel.y <= 0),
        ;
    }
}

/// Left alone inside the unit square and moving along the first axis, an
/// agent slower than the cruising speed closes the gap to it by the share
/// `keep_vel_factor * dt` of the gap, rounded towards zero twice: it stays
/// on the axis, never closes more than that share, closes less than
/// `1 + dt` raw units short of it, and does gain speed as soon as the share
/// is worth that much. For the weight 10 and the time step 0.01 the gap
/// falls to nine tenths and less than 1.01 raw units more, and the agent
/// gains speed while the gap is eleven raw units or more.
pub proof fn law_lone_agent_on_an_axis_closes_the_gap(flock: Flock, i: int, dt: int)
    requires
        0 <= i < flock.agents.len(),
        forall|j: int| 0 <= j < flock.agents.len() ==> !flock.interacts(i, j),
        0 <= flock.agents[i].pos.x <= SCALE,
        0 <= flock.agents[i].pos.y <= SCALE,
        flock.agents[i].vel.y == 0,
        0 < flock.agents[i].vel.x <= flock.params.alone_vel,
        in_range(flock.params.alone_vel),
        flock.params.keep_vel_factor >= 0,
        dt >= 0,
        flock.params.keep_vel_factor * dt <= SCALE * SCALE,
        in_range(
            quot(
                (flock.params.alone_vel - flock.agents[i].vel.x) * flock.params.keep_vel_factor,
                SCALE as int,
            ),
        ),
    ensures
        ({
            let s = SCALE as int;
            let share = flock.params.keep_vel_factor * dt;
            let after = flock.advance_velocities(dt).agents[i].vel;
            let gap = flock.params.alone_vel - flock.agents[i].vel.x;
            let left = flock.params.alone_vel - after.x;
            &&& after.y == 0
            &&& 0 <= left <= gap
            &&& left * (s * s) >= gap * (s * s - share)
            &&& left * (s * s) < gap * (s * s - share) + (dt + s) * s
            &&& gap * share >= (dt + s) * s ==> left < gap
        }),
{
    let s = SCALE as int;
    let params = flock.params;
    let vel = flock.agents[i].vel;
    let len = params.alone_vel;
    let keep = params.keep_vel_factor;
    let share = keep * dt;
    let x = vel.x;
    let hh = vel.norm_squared();
    let after = flock.advance_velocities(dt).agents[i].vel;
    law_isolated_agent_has_no_flocking_term(flock, i);
    // the target is the cruising speed along the axis, exactly
    assert(hh == x * x && hh > 0 && 0 * len == 0 && (0 * len) * (0 * len) == 0 && 0int / hh == 0
        && (x * len) * (x * len) == len * len * hh && (len + 1) * (len + 1) * hh > len * len * hh
        && x * len >= 0) by (nonlinear_arith)
        requires
            hh == x * x + 0 * 0,
            x > 0,
            len >= 0,
    ;
    lemma_root_of_quotient(len, (x * len) * (x * len), hh);
    assert(0 * 0 * hh == 0 && (0 + 1) * (0 + 1) * hh == hh) by (nonlinear_arith);
    lemma_root_of_quotient(0, 0, hh);
    let target = vel.rescaled(len);
    assert(target.x == len && target.y == 0);
    // one update
    let gap = len - x;
    let first = quot(gap * keep, s);
    let second = quot(first * dt, s);
    assert(gap * keep >= 0 && 0 * keep == 0 && 0 * dt == 0) by (nonlinear_arith)
        requires
            gap >= 0,
            keep >= 0,
    ;
    lemma_quot_monotone(0, gap * keep, s);
    assert(first * dt >= 0) by (nonlinear_arith)
        requires
            first >= 0,
            dt >= 0,
    ;
    lemma_quot_monotone(0, first * dt, s);
    lemma_damped(gap, keep, dt);
    assert(fx_mul(gap, keep) == first);
    assert(fx_mul(first, dt) == second);
    assert(params.cruise(vel) == (Vector { x: first, y: 0 }));
    assert(after.x == x + second && after.y == 0);
    // the two roundings
    lemma_quot_bracket(gap * keep, s);
    lemma_quot_bracket(first * dt, s);
    assert(second * (s * s) <= gap * share && second * (s * s) > gap * share - (dt + s) * s)
        by (nonlinear_arith)
        requires
            first * s <= gap * keep < first * s + s,
            second * s <= first * dt < second * s + s,
            share == keep * dt,
            dt >= 0,
            s > 0,
    {
        assert((first * s) * dt <= (gap * keep) * dt);
        assert((gap * keep) * dt <= (first * s + s) * dt);
        assert((gap * keep) * dt == gap * (keep * dt));
        assert((second * s) * s <= (first * dt) * s);
        assert((first * dt) * s < (second * s + s) * s);
    }
    let left = len - after.x;
    assert(left * (s * s) == gap * (s * s) - second * (s * s) && gap * (s * s - share) == gap * (
    s * s) - gap * share) by (nonlinear_arith)
        requires
            left == gap - second,
    ;
    if gap * share >= (dt + s) * s {
        assert(second > 0) by (nonlinear_arith)
            requires
                second * (s * s) > gap * share - (dt + s) * s,
                gap * share >= (dt + s) * s,
                s > 0,
        ;
    }
}

/// With a vision threshold that is not positive, an agent sees whatever
/// does not lie behind it: every displacement whose dot product with its
/// heading is not negative.
pub proof fn law_agent_sees_what_lies_ahead(params: Params, heading: Vector, d: Vector)
    requires
        params.vision_cos <= 0,
        heading.dot(d) >= 0,
    ensures
        params.in_cone(heading, d),
{
}

/// With a vision threshold above minus one, a moving agent does not see
/// what lies straight behind it: a displacement along the line of its
/// heading and against it.
pub proof fn law_agent_does_not_see_straight_behind(params: Params, heading: Vector, d: Vector)
    requires
        params.vision_cos > -SCALE,
        heading != Vector::zero(),
        heading.x * d.y == heading.y * d.x,
        heading.dot(d) < 0,
    ensures
        !params.in_cone(heading, d),
{
    let dot = heading.dot(d);
    let hh = heading.norm_squared();
    let dd = d.norm_squared();
    let c = params.vision_cos;
    let s = SCALE as int;
    lemma_cauchy_schwarz(heading, d);
    let cross = heading.x * d.y - heading.y * d.x;
    assert(cross * cross == 0) by (nonlinear_arith)
        requires
            cross == 0,
    ;
    assert(hh * dd == dot * dot);
    if c <= 0 {
        assert(dot * dot * s * s > c * c * hh * dd) by (nonlinear_arith)
            requires
                hh * dd == dot * dot,
                dot < 0,
                -s < c <= 0,
        ;
    }
}

/// Agents at the same position do not respond to each other, whatever
/// their velocities: neither adds to the flocking term of the other.
pub proof fn law_coincident_agents_do_not_interact(flock: Flock, i: int, j: int)
    requires
        0 <= i < flock.agents.len(),
        0 <= j < flock.agents.len(),
        flock.agents[i].pos == flock.agents[j].pos,
    ensures
        !flock.interacts(i, j),
        !flock.interacts(j, i),
        flock.flocking_upto(i, j + 1) == flock.flocking_upto(i, j),
        flock.flocking_upto(j, i + 1) == flock.flocking_upto(j, i),
{
}

/// A flock whose agents are all at one place has no flocking term at all.
pub proof fn law_coincident_flock_has_no_flocking_term(flock: Flock, i: int)
    requires
        0 <= i < flock.agents.len(),
        forall|j: int|
            0 <= j < flock.agents.len() ==> (#[trigger] flock.agents[j]).pos
                == flock.agents[i].pos,
    ensures
        flock.flocking(i) == Vector::zero(),
{
    assert forall|j: int| 0 <= j < flock.agents.len() implies !flock.interacts(i, j) by {
        assert(flock.agents[j].pos == flock.agents[i].pos);
    }
    lemma_no_response_no_term(flock, i, flock.agents.len() as int);
}

/// The steering towards the unit square points inwards on each axis, with
/// a strength of exactly one, and vanishes exactly on the closed square.
pub proof fn law_steering_points_inwards(pos: Vector)
    ensures
        pos.x < 0 <==> steer(pos).x > 0,
        pos.x > SCALE <==> steer(pos).x < 0,
        pos.y < 0 <==> steer(pos).y > 0,
        pos.y > SCALE <==> steer(pos).y < 0,
        steer(pos).x == SCALE || steer(pos).x == 0 || steer(pos).x == -SCALE,
        steer(pos).y == SCALE || steer(pos).y == 0 || steer(pos).y == -SCALE,
{
}

/// The velocity update is in two phases: the new velocity of an agent is
/// its old one and its acceleration in the flock as it was before the
/// update, however the other agents' velocities change in the same update.
pub proof fn law_velocity_update_reads_the_old_flock(flock: Flock, dt: int, i: int)
    requires
        0 <= i < flock.agents.len(),
    ensures
        flock.advance_velocities(dt).agents[i].vel == flock.agents[i].vel.plus(
            flock.acceleration(i).scaled(dt),
        ),
        flock.advance_velocities(dt).agents[i].pos == flock.agents[i].pos,
{
}

} // verus!

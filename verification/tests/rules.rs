use boids::boid::{steer_to_unit, towards_unit_axis, Boid, Draw};
use boids::config::{
    Config, ACCEL_FACTOR, ALIGN_FACTOR, ALONE_VEL, BOID_COUNT, BOID_RADIUS, CROWD_RADIUS,
    FLOCK_RADIUS, KEEP_VEL_FACTOR, VISION_COS,
};
use boids::fixed::{Fixed, SCALE};
use boids::vector::Vec2;

fn fx(raw: i64) -> Fixed {
    Fixed { raw }
}

fn vec2(x: i64, y: i64) -> Vec2 {
    Vec2 { x: fx(x), y: fx(y) }
}

/// The raw value nearest to a real number.
fn raw(x: f64) -> i64 {
    (x * 1e9).round() as i64
}

#[test]
fn standard_parameters() {
    let config = Config::default();
    assert_eq!(config.vision_cos, fx(VISION_COS));
    assert_eq!(config.crowd_radius, fx(CROWD_RADIUS));
    assert_eq!(config.flock_radius, fx(FLOCK_RADIUS));
    assert_eq!(config.accel_factor, fx(ACCEL_FACTOR));
    assert_eq!(config.align_factor, fx(ALIGN_FACTOR));
    assert_eq!(config.alone_vel, fx(ALONE_VEL));
    assert_eq!(config.keep_vel_factor, fx(KEEP_VEL_FACTOR));
    assert_eq!(BOID_COUNT, 50);
    assert_eq!(BOID_RADIUS, raw(0.01));
    assert_eq!(CROWD_RADIUS, raw(0.1));
    assert_eq!(FLOCK_RADIUS, raw(0.2));
    assert_eq!(ACCEL_FACTOR, raw(10.0));
    assert_eq!(ALIGN_FACTOR, raw(0.5));
    assert_eq!(ALONE_VEL, raw(0.5));
    assert_eq!(KEEP_VEL_FACTOR, raw(10.0));
}

#[test]
fn vision_threshold_is_the_cosine_of_two_radians() {
    assert_eq!(VISION_COS, raw(2.0f64.cos()));
}

#[test]
fn steering_on_one_axis() {
    assert_eq!(towards_unit_axis(fx(-1)), fx(SCALE));
    assert_eq!(towards_unit_axis(fx(i64::MIN)), fx(SCALE));
    assert_eq!(towards_unit_axis(fx(0)), fx(0));
    assert_eq!(towards_unit_axis(fx(SCALE / 2)), fx(0));
    assert_eq!(towards_unit_axis(fx(SCALE)), fx(0));
    assert_eq!(towards_unit_axis(fx(SCALE + 1)), fx(-SCALE));
    assert_eq!(towards_unit_axis(fx(i64::MAX)), fx(-SCALE));
}

#[test]
fn steering_does_not_grow_with_distance() {
    assert_eq!(steer_to_unit(vec2(raw(-0.5), raw(1.5))), vec2(SCALE, -SCALE));
    assert_eq!(steer_to_unit(vec2(raw(-500.0), raw(1500.0))), vec2(SCALE, -SCALE));
    assert_eq!(steer_to_unit(vec2(raw(2.0), raw(0.5))), vec2(-SCALE, 0));
    assert_eq!(steer_to_unit(vec2(raw(0.5), raw(-2.0))), vec2(0, SCALE));
    assert_eq!(steer_to_unit(vec2(raw(0.3), raw(0.9))), Vec2::zero());
}

#[test]
fn cohesion_pulls_to_the_crowd_radius() {
    let config = Config::default();
    // |d| = 0.5: d - d * (0.1 / 0.5) = (0.24, 0.32), times 10
    assert_eq!(config.cohesion(vec2(raw(0.3), raw(0.4))), vec2(raw(2.4), raw(3.2)));
}

#[test]
fn cohesion_vanishes_at_the_crowd_radius() {
    let config = Config::default();
    assert_eq!(config.cohesion(vec2(raw(0.1), 0)), Vec2::zero());
    assert_eq!(config.cohesion(vec2(raw(-0.06), raw(0.08))), Vec2::zero());
}

#[test]
fn cohesion_pushes_away_inside_the_crowd_radius() {
    let config = Config::default();
    // |d| = 0.05: d - d * 2 = (-0.05, 0), times 10
    assert_eq!(config.cohesion(vec2(raw(0.05), 0)), vec2(raw(-0.5), 0));
    assert_eq!(config.cohesion(vec2(0, raw(-0.05))), vec2(0, raw(0.5)));
}

#[test]
fn cohesion_stays_bounded_next_to_a_flockmate() {
    let config = Config::default();
    // one raw unit apart along an axis: what is taken off is 0.1 long
    assert_eq!(config.cohesion(vec2(1, 0)), vec2(10 - SCALE, 0));
    assert_eq!(config.cohesion(vec2(0, -1)), vec2(0, SCALE - 10));
}

#[test]
fn cohesion_stays_bounded_on_the_diagonal() {
    let config = Config::default();
    // one raw unit apart on each axis: what is taken off is 0.1 long still,
    // 0.070710678 on each axis, and the push is 1 long, not 1.414
    let short = vec2(1, 1).rescaled(config.crowd_radius);
    assert_eq!(short, vec2(70_710_678, 70_710_678));
    assert!(short.norm_squared() <= 10_000_000_000_000_000);
    assert_eq!(config.cohesion(vec2(1, 1)), vec2(-707_106_770, -707_106_770));
    assert_eq!(config.cohesion(vec2(-1, 1)), vec2(707_106_770, -707_106_770));
}

#[test]
fn cohesion_of_no_displacement_is_zero() {
    let config = Config::default();
    assert_eq!(config.cohesion(Vec2::zero()), Vec2::zero());
}

#[test]
fn alignment_is_half_the_difference_of_velocities() {
    let config = Config::default();
    let own = vec2(raw(0.5), 0);
    let other = vec2(0, raw(0.5));
    assert_eq!(config.alignment(own, other), vec2(raw(-0.25), raw(0.25)));
    assert_eq!(config.alignment(own, own), Vec2::zero());
}

#[test]
fn cruise_speeds_a_slow_agent_up() {
    let config = Config::default();
    // |v| = 0.05, target (0.3, 0.4): (target - v) * 10
    assert_eq!(config.cruise(vec2(raw(0.03), raw(0.04))), vec2(raw(2.7), raw(3.6)));
}

#[test]
fn cruise_slows_a_fast_agent_down() {
    let config = Config::default();
    // |v| = 1, target (0.3, -0.4): (target - v) * 10
    assert_eq!(config.cruise(vec2(raw(0.6), raw(-0.8))), vec2(raw(-3.0), raw(4.0)));
}

#[test]
fn cruise_aims_no_faster_than_cruising_speed() {
    let config = Config::default();
    // the target for the shortest diagonal is 0.5 long, 0.353553390 on each axis
    assert_eq!(vec2(1, 1).rescaled(config.alone_vel), vec2(353_553_390, 353_553_390));
    assert_eq!(config.cruise(vec2(1, 1)), vec2(3_535_533_890, 3_535_533_890));
    assert_eq!(config.cruise(vec2(-5, 0)), vec2(-4_999_999_950, 0));
}

#[test]
fn cruise_leaves_cruising_speed_alone() {
    let config = Config::default();
    assert_eq!(config.cruise(vec2(raw(0.3), raw(0.4))), Vec2::zero());
    assert_eq!(config.cruise(vec2(0, raw(-0.5))), Vec2::zero());
}

#[test]
fn cruise_of_an_agent_at_rest_is_zero() {
    let config = Config::default();
    assert_eq!(config.cruise(Vec2::zero()), Vec2::zero());
}

#[test]
fn cone_holds_what_lies_ahead_and_beside() {
    let config = Config::default();
    let heading = vec2(SCALE, 0);
    assert!(config.in_cone(heading, vec2(SCALE, 0)));
    assert!(config.in_cone(heading, vec2(0, SCALE)));
    assert!(config.in_cone(heading, vec2(0, -SCALE)));
    // cosine -1 / sqrt(7.25) = -0.371..., above the threshold
    assert!(config.in_cone(heading, vec2(-SCALE, raw(2.5))));
}

#[test]
fn cone_leaves_out_what_lies_behind() {
    let config = Config::default();
    let heading = vec2(SCALE, 0);
    assert!(!config.in_cone(heading, vec2(-SCALE, 0)));
    // cosine -1 / sqrt(5) = -0.447..., below the threshold
    assert!(!config.in_cone(heading, vec2(-SCALE, 2 * SCALE)));
    assert!(!config.in_cone(heading, vec2(-SCALE, -2 * SCALE)));
}

#[test]
fn cone_is_exact_for_the_shortest_vectors() {
    let config = Config::default();
    // straight behind, however slow the agent and however near the flockmate
    assert!(!config.in_cone(vec2(-5, 0), vec2(raw(0.1), 0)));
    assert!(!config.in_cone(vec2(1, 0), vec2(-1, 0)));
    assert!(!config.in_cone(vec2(1, 1), vec2(-1, -1)));
    assert!(!config.in_cone(vec2(0, 1), vec2(1, -3)));
    assert!(config.in_cone(vec2(0, 1), vec2(3, -1)));
    assert!(config.in_cone(vec2(1, 0), vec2(-1, 3)));
    assert!(!config.in_cone(vec2(1, 0), vec2(-1, 2)));
    assert!(config.in_cone(vec2(1, 0), vec2(0, 1)));
    assert!(config.in_cone(vec2(1, 0), vec2(1, 0)));
}

#[test]
fn cone_is_exact_for_the_longest_vectors() {
    let config = Config::default();
    assert!(!config.in_cone(vec2(i64::MAX, 0), vec2(i64::MIN, 0)));
    assert!(!config.in_cone(vec2(i64::MIN, i64::MIN), vec2(i64::MAX, i64::MAX)));
    assert!(config.in_cone(vec2(i64::MIN, i64::MIN), vec2(i64::MIN, i64::MIN)));
    assert!(config.in_cone(vec2(i64::MIN, i64::MIN), vec2(i64::MIN, i64::MAX)));
    // cosines -0.2425... and -0.7071...
    assert!(config.in_cone(vec2(i64::MAX, 0), vec2(i64::MIN / 4, i64::MAX)));
    assert!(!config.in_cone(vec2(i64::MAX, 0), vec2(i64::MIN, i64::MAX)));
}

#[test]
fn cone_follows_the_threshold() {
    let heading = vec2(SCALE, 0);
    let all = Config { vision_cos: fx(-SCALE), ..Config::default() };
    let beyond = Config { vision_cos: fx(-2 * SCALE), ..Config::default() };
    assert!(all.in_cone(heading, vec2(-SCALE, 0)));
    assert!(beyond.in_cone(heading, vec2(-SCALE, 0)));
    let half = Config { vision_cos: fx(0), ..Config::default() };
    assert!(half.in_cone(heading, vec2(0, SCALE)));
    assert!(!half.in_cone(heading, vec2(-1, SCALE)));
    // a cone of 60 degrees: the cosine is one half
    let narrow = Config { vision_cos: fx(SCALE / 2), ..Config::default() };
    assert!(narrow.in_cone(heading, vec2(SCALE, SCALE)));
    assert!(!narrow.in_cone(heading, vec2(SCALE, 2 * SCALE)));
    assert!(!narrow.in_cone(heading, vec2(-SCALE, 0)));
    // straight ahead only
    let ahead = Config { vision_cos: fx(SCALE), ..Config::default() };
    assert!(ahead.in_cone(heading, vec2(7, 0)));
    assert!(!ahead.in_cone(heading, vec2(SCALE, 1)));
    let none = Config { vision_cos: fx(SCALE + 1), ..Config::default() };
    assert!(!none.in_cone(heading, vec2(7, 0)));
    assert!(none.in_cone(Vec2::zero(), vec2(7, 0)));
}

#[test]
fn cone_does_not_depend_on_speed() {
    let config = Config::default();
    assert!(!config.in_cone(vec2(0, raw(0.01)), vec2(raw(0.05), raw(-0.1))));
    assert!(!config.in_cone(vec2(0, raw(30.0)), vec2(raw(0.05), raw(-0.1))));
    assert!(config.in_cone(vec2(0, raw(0.01)), vec2(raw(0.125), raw(-0.05))));
    assert!(config.in_cone(vec2(0, raw(30.0)), vec2(raw(0.125), raw(-0.05))));
}

#[test]
fn agent_at_rest_sees_all_around() {
    let config = Config::default();
    assert!(config.in_cone(Vec2::zero(), vec2(-SCALE, 0)));
    assert!(config.in_cone(Vec2::zero(), vec2(SCALE, 0)));
    assert!(config.in_cone(Vec2::zero(), vec2(0, -1)));
}

#[test]
fn radius_is_closed_and_exact() {
    let config = Config::default();
    assert!(config.in_radius(vec2(FLOCK_RADIUS, 0)));
    assert!(!config.in_radius(vec2(FLOCK_RADIUS + 1, 0)));
    assert!(!config.in_radius(vec2(FLOCK_RADIUS, 1)));
    assert!(config.in_radius(vec2(raw(-0.12), raw(0.16))));
    assert!(!config.in_radius(vec2(raw(-0.12), raw(0.16) + 1)));
    assert!(config.in_radius(Vec2::zero()));
}

#[test]
fn radius_holds_at_the_ends_of_the_range() {
    let config = Config::default();
    assert!(!config.in_radius(vec2(i64::MIN, i64::MIN)));
    assert!(!config.in_radius(vec2(i64::MAX, 0)));
}

#[test]
fn velocity_spread_is_the_root_of_half_the_cruising_speed() {
    let config = Config::default();
    assert_eq!(config.velocity_spread(), fx(raw(0.5)));
    let fast = Config { alone_vel: fx(8 * SCALE), ..config };
    assert_eq!(fast.velocity_spread(), fx(2 * SCALE));
    let still = Config { alone_vel: fx(0), ..config };
    assert_eq!(still.velocity_spread(), fx(0));
}

#[test]
fn spawn_places_and_spreads() {
    let config = Config::default();
    let draw = Draw { unit: vec2(raw(0.25), raw(0.75)), normal: vec2(SCALE, -2 * SCALE) };
    let boid = Boid::spawn(&config, draw);
    assert_eq!(boid.pos, vec2(raw(0.25), raw(0.75)));
    assert_eq!(boid.vel, vec2(raw(0.5), raw(-1.0)));
}

#[test]
fn moved_adds_velocity_times_time() {
    let boid = Boid { pos: vec2(raw(0.25), raw(0.75)), vel: vec2(raw(0.5), raw(-0.3)) };
    let later = boid.moved(fx(raw(0.1)));
    assert_eq!(later.pos, vec2(raw(0.3), raw(0.72)));
    assert_eq!(later.vel, boid.vel);
}

#[test]
fn pushed_adds_acceleration_times_time() {
    let boid = Boid { pos: vec2(raw(0.25), raw(0.75)), vel: vec2(raw(0.5), raw(-0.3)) };
    let later = boid.pushed(vec2(raw(-2.0), raw(4.0)), fx(raw(0.1)));
    assert_eq!(later.vel, vec2(raw(0.3), raw(0.1)));
    assert_eq!(later.pos, boid.pos);
}

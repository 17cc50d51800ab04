use boids::config::{
    ACCEL_FACTOR, ALIGN_FACTOR, ALONE_VEL, CROWD_RADIUS, FLOCK_RADIUS, KEEP_VEL_FACTOR,
};
use boids::{App, Boid, Config, Fixed, Vec2};

/// An agent over the reals: position and velocity.
#[derive(Clone, Copy)]
struct Body {
    px: f64,
    py: f64,
    vx: f64,
    vy: f64,
}

fn units(raw: i64) -> f64 {
    raw as f64 / 1e9
}

fn body(b: &Boid) -> Body {
    Body { px: units(b.pos.x.raw), py: units(b.pos.y.raw), vx: units(b.vel.x.raw), vy: units(b.vel.y.raw) }
}

/// A flock at scattered places with scattered velocities.
fn scattered(count: usize, seed: u64) -> Vec<Boid> {
    let mut state = seed;
    let mut next = move |span: i64| {
        state = state.wrapping_mul(6364136223846793005).wrapping_add(1442695040888963407);
        ((state >> 33) as i64) % span
    };
    let mut out = Vec::new();
    for _ in 0..count {
        let pos = Vec2 { x: Fixed { raw: next(1_000_000_001) }, y: Fixed { raw: next(1_000_000_001) } };
        let vel = Vec2 {
            x: Fixed { raw: next(2_000_000_001) - 1_000_000_000 },
            y: Fixed { raw: next(2_000_000_001) - 1_000_000_000 },
        };
        out.push(Boid { pos, vel });
    }
    out
}

/// Whether agent `i` responds to agent `j`, with the vision cone given by
/// its angle of two radians.
fn responds(flock: &[Body], i: usize, j: usize) -> bool {
    let a = flock[i];
    let b = flock[j];
    let (dx, dy) = (b.px - a.px, b.py - a.py);
    if j == i || (dx == 0.0 && dy == 0.0) {
        return false;
    }
    let angle = if a.vx == 0.0 && a.vy == 0.0 {
        0.0
    } else {
        let cosine = (a.vx * dx + a.vy * dy) / (a.vx.hypot(a.vy) * dx.hypot(dy));
        cosine.max(-1.0).min(1.0).acos()
    };
    let radius = units(FLOCK_RADIUS);
    angle.abs() <= 2.0 && dx * dx + dy * dy <= radius * radius
}

/// How close the pair comes to the edge of the cone or of the flock radius.
fn margin(flock: &[Body], i: usize, j: usize) -> f64 {
    let a = flock[i];
    let b = flock[j];
    let (dx, dy) = (b.px - a.px, b.py - a.py);
    let reach = (dx.hypot(dy) - units(FLOCK_RADIUS)).abs();
    if a.vx == 0.0 && a.vy == 0.0 {
        return reach;
    }
    let cosine = (a.vx * dx + a.vy * dy) / (a.vx.hypot(a.vy) * dx.hypot(dy));
    reach.min((cosine.max(-1.0).min(1.0).acos() - 2.0).abs())
}

/// The acceleration of agent `i` by the rules over the reals.
fn acceleration(flock: &[Body], i: usize) -> (f64, f64) {
    let a = flock[i];
    let (mut ax, mut ay) = (0.0, 0.0);
    for j in 0..flock.len() {
        if responds(flock, i, j) {
            let b = flock[j];
            let (dx, dy) = (b.px - a.px, b.py - a.py);
            let ratio = units(CROWD_RADIUS) / dx.hypot(dy);
            ax += (dx - dx * ratio) * units(ACCEL_FACTOR) + (b.vx - a.vx) * units(ALIGN_FACTOR);
            ay += (dy - dy * ratio) * units(ACCEL_FACTOR) + (b.vy - a.vy) * units(ALIGN_FACTOR);
        }
    }
    if a.vx != 0.0 || a.vy != 0.0 {
        let ratio = units(ALONE_VEL) / a.vx.hypot(a.vy);
        ax += (a.vx * ratio - a.vx) * units(KEEP_VEL_FACTOR);
        ay += (a.vy * ratio - a.vy) * units(KEEP_VEL_FACTOR);
    }
    let towards = |x: f64| if x < 0.0 { 1.0 } else if x > 1.0 { -1.0 } else { 0.0 };
    (ax + towards(a.px), ay + towards(a.py))
}

#[test]
fn responses_agree_with_the_angle_of_two_radians() {
    let mut seen = 0;
    let mut unseen = 0;
    for seed in 1..6u64 {
        let boids = scattered(50, seed);
        let flock: Vec<Body> = boids.iter().map(body).collect();
        let app = App::with_boids(Config::default(), boids);
        for i in 0..flock.len() {
            for j in 0..flock.len() {
                if i != j && margin(&flock, i, j) < 1e-6 {
                    continue;
                }
                assert_eq!(app.interacts(i, j), responds(&flock, i, j));
                if responds(&flock, i, j) {
                    seen += 1;
                } else {
                    unseen += 1;
                }
            }
        }
    }
    assert!(seen > 500);
    assert!(unseen > 500);
}

#[test]
fn accelerations_agree_with_the_rules_over_the_reals() {
    for seed in 1..6u64 {
        let boids = scattered(50, seed);
        let flock: Vec<Body> = boids.iter().map(body).collect();
        let app = App::with_boids(Config::default(), boids);
        for i in 0..flock.len() {
            if (0..flock.len()).any(|j| i != j && margin(&flock, i, j) < 1e-6) {
                continue;
            }
            let (ax, ay) = acceleration(&flock, i);
            let got = app.acceleration(i);
            assert!((units(got.x.raw) - ax).abs() < 1e-6);
            assert!((units(got.y.raw) - ay).abs() < 1e-6);
        }
    }
}

#[test]
fn a_short_run_stays_close_to_the_rules_over_the_reals() {
    let boids = scattered(50, 7);
    let mut flock: Vec<Body> = boids.iter().map(body).collect();
    let mut app = App::with_boids(Config::default(), boids);
    let dt = 0.004;
    for _ in 0..3 {
        for a in flock.iter_mut() {
            a.px += a.vx * dt;
            a.py += a.vy * dt;
        }
        let accels: Vec<(f64, f64)> = (0..flock.len()).map(|i| acceleration(&flock, i)).collect();
        for (a, (ax, ay)) in flock.iter_mut().zip(accels) {
            a.vx += ax * dt;
            a.vy += ay * dt;
        }
        app.tick(Fixed { raw: 4_000_000 });
    }
    for (a, b) in flock.iter().zip(app.boids().iter()) {
        assert!((a.px - units(b.pos.x.raw)).abs() < 1e-6);
        assert!((a.py - units(b.pos.y.raw)).abs() < 1e-6);
        assert!((a.vx - units(b.vel.x.raw)).abs() < 1e-6);
        assert!((a.vy - units(b.vel.y.raw)).abs() < 1e-6);
    }
}

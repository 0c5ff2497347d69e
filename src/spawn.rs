use vstd::prelude::*;
use crate::motion::{Body, Field, Vec2, MAX_SIZE};

verus! {

/// Largest obstacle speed, in micro-pixels per millisecond.
pub const OBSTACLE_SPEED: u64 = 80_000;

/// The range of one random draw.
pub const DRAW_RANGE: u64 = 0x1_0000_0000;

/// Relies on rand::random: a value drawn from the thread-local generator.
/// Nothing is known of the value.
pub assume_specification<T>[ rand::random::<T> ]() -> (r: T)
    where
        rand::distributions::Standard: rand::distributions::Distribution<T>,
;

/// A draw `r` out of `DRAW_RANGE` spread over `[-span / 2, span / 2)`.
pub open spec fn spread(span: int, r: int) -> int {
    span * r / (DRAW_RANGE as int) - span / 2
}

/// The obstacle made from four draws: two for its position within the
/// field and two for its velocity.
pub open spec fn obstacle_spec(field: Field, px: u32, py: u32, vx: u32, vy: u32) -> Body {
    Body {
        pos: Vec2 {
            x: spread(field.width as int, px as int) as i64,
            y: spread(field.height as int, py as int) as i64,
        },
        vel: Vec2 {
            x: spread(OBSTACLE_SPEED as int, vx as int) as i64,
            y: spread(OBSTACLE_SPEED as int, vy as int) as i64,
        },
        heading: 0,
    }
}

pub open spec fn is_obstacle(field: Field, b: Body) -> bool {
    exists|px: u32, py: u32, vx: u32, vy: u32| b == #[trigger] obstacle_spec(field, px, py, vx, vy)
}

/// `span * r / DRAW_RANGE - span / 2`.
pub fn spread_draw(span: u64, r: u32) -> (s: i64)
    requires
        0 < span <= MAX_SIZE,
    ensures
        s == spread(span as int, r as int),
        -(span as int) <= 2 * s <= span,
{
    proof {
        assert(span as int * r as int / (DRAW_RANGE as int) < span as int) by (nonlinear_arith)
            requires 0 < span, 0 <= r < DRAW_RANGE;
        assert(span as int * r as int / (DRAW_RANGE as int) >= 0) by (nonlinear_arith)
            requires 0 < span, 0 <= r;
    }
    let t = ((span as u128 * r as u128) / (DRAW_RANGE as u128)) as i64;
    t - (span / 2) as i64
}

/// Places an obstacle from four draws.
pub fn obstacle_from_draws(field: Field, px: u32, py: u32, vx: u32, vy: u32) -> (b: Body)
    requires
        field.wf(),
    ensures
        b == obstacle_spec(field, px, py, vx, vy),
        -field.width <= 2 * b.pos.x <= field.width,
        -field.height <= 2 * b.pos.y <= field.height,
        -(OBSTACLE_SPEED as int) <= 2 * b.vel.x <= OBSTACLE_SPEED,
        -(OBSTACLE_SPEED as int) <= 2 * b.vel.y <= OBSTACLE_SPEED,
{
    Body {
        pos: Vec2 { x: spread_draw(field.width as u64, px), y: spread_draw(field.height as u64, py) },
        vel: Vec2 { x: spread_draw(OBSTACLE_SPEED, vx), y: spread_draw(OBSTACLE_SPEED, vy) },
        heading: 0,
    }
}

/// Spawns `count` obstacles at random places in the field with random
/// velocities.
pub fn spawn_obstacles(field: Field, count: usize) -> (r: Vec<Body>)
    requires
        field.wf(),
    ensures
        r@.len() == count,
        forall|i: int| 0 <= i < count ==> is_obstacle(field, #[trigger] r@[i]),
{
    let mut r: Vec<Body> = Vec::new();
    let mut i: usize = 0;
    while i < count
        invariant
            0 <= i <= count,
            r@.len() == i,
            field.wf(),
            forall|j: int| 0 <= j < i ==> is_obstacle(field, #[trigger] r@[j]),
        decreases count - i,
    {
        let px: u32 = rand::random::<u32>();
        let py: u32 = rand::random::<u32>();
        let vx: u32 = rand::random::<u32>();
        let vy: u32 = rand::random::<u32>();
        let b = obstacle_from_draws(field, px, py, vx, vy);
        assert(is_obstacle(field, b));
        r.push(b);
        i = i + 1;
    }
    r
}

/// The ship at the start: at the centre, at rest, facing up.
pub fn new_ship() -> (b: Body)
    ensures
        b.pos == (Vec2 { x: 0, y: 0 }),
        b.vel == (Vec2 { x: 0, y: 0 }),
        b.heading == 0,
{
    Body { pos: Vec2 { x: 0, y: 0 }, vel: Vec2 { x: 0, y: 0 }, heading: 0 }
}

} // verus!

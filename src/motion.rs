use vstd::prelude::*;

verus! {

/// Largest play-field side, in micro-pixels.
pub const MAX_SIZE: i64 = 0x100_0000_0000;

/// Largest magnitude of a position coordinate.
pub const MAX_POS: i64 = 0x1000_0000_0000_0000;

/// Largest magnitude of a velocity component.
pub const MAX_SPEED: i64 = 0x8000_0000;

/// Longest tick, in milliseconds.
pub const MAX_DT: u32 = 0x10_0000;

/// A point or a vector on the horizontal plane.
#[derive(Clone, Copy, Debug, PartialEq, Eq, Structural)]
pub struct Vec2 {
    pub x: i64,
    pub y: i64,
}

/// The play-field: a torus of the given width and height.
#[derive(Clone, Copy, Debug, PartialEq, Eq, Structural)]
pub struct Field {
    pub width: i64,
    pub height: i64,
}

/// Anything that moves: a ship, an asteroid or a shot.
#[derive(Clone, Copy, Debug, PartialEq, Eq, Structural)]
pub struct Body {
    pub pos: Vec2,
    pub vel: Vec2,
    /// Orientation about the vertical axis, a binary angle.
    pub heading: u32,
}

impl Field {
    pub open spec fn wf(self) -> bool {
        0 < self.width <= MAX_SIZE && 0 < self.height <= MAX_SIZE
    }

    pub fn new(width: i64, height: i64) -> (r: Field)
        requires
            0 < width <= MAX_SIZE,
            0 < height <= MAX_SIZE,
        ensures
            r.wf(),
            r.width == width,
            r.height == height,
    {
        Field { width, height }
    }
}

pub open spec fn speed_ok(v: Vec2) -> bool {
    -MAX_SPEED <= v.x <= MAX_SPEED && -MAX_SPEED <= v.y <= MAX_SPEED
}

pub open spec fn pos_ok(p: Vec2) -> bool {
    -MAX_POS <= p.x <= MAX_POS && -MAX_POS <= p.y <= MAX_POS
}

/// One wrap step on one axis of a field of the given size.
pub open spec fn wrap_spec(p: int, size: int) -> int {
    if 2 * p > size {
        p - size
    } else if 2 * p < -size {
        p + size
    } else {
        p
    }
}

/// Where a coordinate is after `dt` milliseconds at velocity `v`.
pub open spec fn drift(p: int, v: int, dt: int) -> int {
    p + v * dt
}

/// Wraps one coordinate once across a field side of length `size`: past
/// `size / 2` it moves back by `size`, below `-size / 2` forward by `size`.
/// The edges themselves belong to the field.
pub fn wrap_axis(p: i64, size: i64) -> (r: i64)
    requires
        -MAX_POS <= p <= MAX_POS,
        0 < size <= MAX_SIZE,
    ensures
        r == wrap_spec(p as int, size as int),
{
    if 2 * p > size {
        p - size
    } else if 2 * p < -size {
        p + size
    } else {
        p
    }
}

/// Moves a position by `vel * dt`, without wrapping.
pub fn integrate(pos: Vec2, vel: Vec2, dt: u32) -> (r: Vec2)
    requires
        pos_ok(pos),
        speed_ok(vel),
        dt <= MAX_DT,
        -MAX_POS <= drift(pos.x as int, vel.x as int, dt as int) <= MAX_POS,
        -MAX_POS <= drift(pos.y as int, vel.y as int, dt as int) <= MAX_POS,
    ensures
        r.x == drift(pos.x as int, vel.x as int, dt as int),
        r.y == drift(pos.y as int, vel.y as int, dt as int),
{
    proof {
        assert(-MAX_SPEED * MAX_DT <= vel.x * dt <= MAX_SPEED * MAX_DT) by (nonlinear_arith)
            requires -MAX_SPEED <= vel.x <= MAX_SPEED, 0 <= dt <= MAX_DT;
        assert(-MAX_SPEED * MAX_DT <= vel.y * dt <= MAX_SPEED * MAX_DT) by (nonlinear_arith)
            requires -MAX_SPEED <= vel.y <= MAX_SPEED, 0 <= dt <= MAX_DT;
    }
    Vec2 { x: pos.x + vel.x * dt as i64, y: pos.y + vel.y * dt as i64 }
}

/// The position after one tick: integrate, then wrap each axis once.
pub open spec fn advance_spec(b: Body, field: Field, dt: int) -> Vec2 {
    Vec2 {
        x: wrap_spec(drift(b.pos.x as int, b.vel.x as int, dt), field.width as int) as i64,
        y: wrap_spec(drift(b.pos.y as int, b.vel.y as int, dt), field.height as int) as i64,
    }
}

/// What a body needs so that one tick of `dt` stays within machine range.
pub open spec fn can_advance(b: Body, dt: int) -> bool {
    &&& pos_ok(b.pos)
    &&& speed_ok(b.vel)
    &&& -MAX_POS <= drift(b.pos.x as int, b.vel.x as int, dt) <= MAX_POS
    &&& -MAX_POS <= drift(b.pos.y as int, b.vel.y as int, dt) <= MAX_POS
}

/// Advances one body by one tick: its position moves by `vel * dt` and
/// is wrapped once on each axis. Velocity and heading are kept.
pub fn advance(b: &mut Body, field: Field, dt: u32)
    requires
        field.wf(),
        dt <= MAX_DT,
        can_advance(*old(b), dt as int),
    ensures
        final(b).pos == advance_spec(*old(b), field, dt as int),
        final(b).vel == old(b).vel,
        final(b).heading == old(b).heading,
{
    let p = integrate(b.pos, b.vel, dt);
    b.pos = Vec2 { x: wrap_axis(p.x, field.width), y: wrap_axis(p.y, field.height) };
}

/// Advances every body by one tick, one after the other. No body reads
/// another, so the order does not matter.
pub fn advance_all(bodies: &mut Vec<Body>, field: Field, dt: u32)
    requires
        field.wf(),
        dt <= MAX_DT,
        forall|i: int| 0 <= i < old(bodies)@.len() ==> can_advance(#[trigger] old(bodies)@[i], dt as int),
    ensures
        final(bodies)@.len() == old(bodies)@.len(),
        forall|i: int|
            0 <= i < old(bodies)@.len() ==> {
                &&& (#[trigger] final(bodies)@[i]).pos == advance_spec(old(bodies)@[i], field, dt as int)
                &&& final(bodies)@[i].vel == old(bodies)@[i].vel
                &&& final(bodies)@[i].heading == old(bodies)@[i].heading
            },
{
    let n = bodies.len();
    let mut i: usize = 0;
    while i < n
        invariant
            0 <= i <= n,
            n == old(bodies)@.len(),
            bodies@.len() == n,
            field.wf(),
            dt <= MAX_DT,
            forall|j: int| 0 <= j < n ==> can_advance(#[trigger] old(bodies)@[j], dt as int),
            forall|j: int| i <= j < n ==> #[trigger] bodies@[j] == old(bodies)@[j],
            forall|j: int|
                0 <= j < i ==> {
                    &&& (#[trigger] bodies@[j]).pos == advance_spec(old(bodies)@[j], field, dt as int)
                    &&& bodies@[j].vel == old(bodies)@[j].vel
                    &&& bodies@[j].heading == old(bodies)@[j].heading
                },
        decreases n - i,
    {
        let mut b = bodies[i];
        advance(&mut b, field, dt);
        bodies.set(i, b);
        i = i + 1;
    }
}

/// Whether a position lies within the field, edges included.
pub open spec fn in_field(p: Vec2, field: Field) -> bool {
    -field.width <= 2 * p.x <= field.width && -field.height <= 2 * p.y <= field.height
}

/// The wrap boundary is exclusive: a coordinate exactly at half the side
/// stays, and one `e` past it comes back `e` past the opposite edge.
pub proof fn lemma_wrap_boundary(half: int, e: int)
    requires
        0 < 2 * half <= MAX_SIZE,
        0 < e,
    ensures
        wrap_spec(half, 2 * half) == half,
        wrap_spec(-half, 2 * half) == -half,
        wrap_spec(half + e, 2 * half) == -half + e,
        wrap_spec(-half - e, 2 * half) == half - e,
{
}

/// A tick of no time leaves every coordinate where it was, whatever the
/// velocity, and a body inside the field stays put.
pub proof fn lemma_zero_dt_keeps_position(b: Body, field: Field)
    requires
        field.wf(),
    ensures
        drift(b.pos.x as int, b.vel.x as int, 0) == b.pos.x,
        drift(b.pos.y as int, b.vel.y as int, 0) == b.pos.y,
        in_field(b.pos, field) ==> advance_spec(b, field, 0) == b.pos,
{
}

} // verus!

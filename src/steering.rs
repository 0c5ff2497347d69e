use vstd::prelude::*;
use crate::motion::{Vec2, speed_ok, MAX_DT, MAX_SPEED};

verus! {

/// One full turn in binary-angle units.
pub const TURN: u64 = 0x1_0000_0000;

/// Turning speed in binary-angle units per millisecond (about one radian
/// per second).
pub const ROTATION_RATE: u64 = 683_565;

/// Forward thrust in micro-pixels per millisecond squared.
pub const THRUST_ACCEL: u64 = 80;

/// Length of a unit vector in `Facing`.
pub const UNIT: i64 = 0x10_0000;

/// The steering keys held this tick.
#[derive(Clone, Copy, Debug, PartialEq, Eq, Structural)]
pub struct Keys {
    pub forward: bool,
    pub backward: bool,
    pub left: bool,
    pub right: bool,
}

/// The world-space forward direction of a heading, scaled to `UNIT`.
#[derive(Clone, Copy, Debug, PartialEq, Eq, Structural)]
pub struct Facing {
    pub x: i64,
    pub y: i64,
}

impl Facing {
    pub open spec fn wf(self) -> bool {
        -UNIT <= self.x <= UNIT && -UNIT <= self.y <= UNIT
    }
}

/// How far a heading turns in `dt` milliseconds.
pub open spec fn turn_of(dt: int) -> int {
    (dt * ROTATION_RATE) % (TURN as int)
}

/// The heading after a tick: left turns up, right turns down, both or
/// neither leave it.
pub open spec fn rotate_spec(heading: int, keys: Keys, dt: int) -> int {
    if keys.left && !keys.right {
        (heading + turn_of(dt)) % (TURN as int)
    } else if keys.right && !keys.left {
        (heading - turn_of(dt)) % (TURN as int)
    } else {
        heading
    }
}

/// `x * n / d`, rounded toward zero.
pub open spec fn scale(x: int, n: int, d: int) -> int {
    if x >= 0 {
        x * n / d
    } else {
        -((-x) * n / d)
    }
}

/// The change of one velocity component under thrust along a facing
/// component `f` for `dt` milliseconds.
pub open spec fn thrust_delta(f: int, keys: Keys, dt: int) -> int {
    if keys.forward {
        scale(f, THRUST_ACCEL * dt, UNIT as int)
    } else if keys.backward {
        -scale(f, THRUST_ACCEL * dt, UNIT as int)
    } else {
        0
    }
}

/// Whether the velocity after thrust stays within the speed range.
pub open spec fn thrust_fits(vel: Vec2, facing: Facing, keys: Keys, dt: int) -> bool {
    &&& -MAX_SPEED <= vel.x + thrust_delta(facing.x as int, keys, dt) <= MAX_SPEED
    &&& -MAX_SPEED <= vel.y + thrust_delta(facing.y as int, keys, dt) <= MAX_SPEED
}

/// `x * n / d` rounded toward zero, for `|x| * n` within `u64`.
pub fn scale_toward_zero(x: i64, n: u64, d: u64) -> (r: i64)
    requires
        -UNIT <= x <= UNIT,
        n <= 0x100_0000_0000,
        d > 0,
    ensures
        r == scale(x as int, n as int, d as int),
        d == UNIT ==> -(n as int) <= r <= n,
{
    if x >= 0 {
        let m = x as u64;
        proof {
            assert(m * n <= UNIT * 0x100_0000_0000) by (nonlinear_arith)
                requires m <= UNIT, n <= 0x100_0000_0000;
            assert((m as int * n as int) / (d as int) <= m as int * n as int) by (nonlinear_arith) requires d > 0, m as int * n as int >= 0;
            assert(d == UNIT ==> (m as int * n as int) / (d as int) <= n) by (nonlinear_arith)
                requires m <= UNIT, n >= 0, d > 0;
        }
        (m * n / d) as i64
    } else {
        let m = (-x) as u64;
        proof {
            assert(m * n <= UNIT * 0x100_0000_0000) by (nonlinear_arith)
                requires m <= UNIT, n <= 0x100_0000_0000;
            assert((m as int * n as int) / (d as int) <= m as int * n as int) by (nonlinear_arith) requires d > 0, m as int * n as int >= 0;
            assert(d == UNIT ==> (m as int * n as int) / (d as int) <= n) by (nonlinear_arith)
                requires m <= UNIT, n >= 0, d > 0;
        }
        -((m * n / d) as i64)
    }
}

/// Turns a heading by the rotate keys held for `dt` milliseconds.
pub fn rotate(heading: u32, keys: Keys, dt: u32) -> (r: u32)
    ensures
        r == rotate_spec(heading as int, keys, dt as int),
{
    let step = (dt as u64 * ROTATION_RATE) % TURN;
    if keys.left && !keys.right {
        ((heading as u64 + step) % TURN) as u32
    } else if keys.right && !keys.left {
        ((heading as u64 + (TURN - step)) % TURN) as u32
    } else {
        heading
    }
}

/// Adds the thrust of the held forward or backward key to a velocity;
/// forward wins when both are held. `facing` is the forward direction of
/// the ship's heading. Speed is not capped.
pub fn thrust(vel: Vec2, facing: Facing, keys: Keys, dt: u32) -> (r: Vec2)
    requires
        facing.wf(),
        dt <= MAX_DT,
        speed_ok(vel),
        thrust_fits(vel, facing, keys, dt as int),
    ensures
        r.x == vel.x + thrust_delta(facing.x as int, keys, dt as int),
        r.y == vel.y + thrust_delta(facing.y as int, keys, dt as int),
{
    let n = THRUST_ACCEL * dt as u64;
    let dx = scale_toward_zero(facing.x, n, UNIT as u64);
    let dy = scale_toward_zero(facing.y, n, UNIT as u64);
    if keys.forward {
        Vec2 { x: vel.x + dx, y: vel.y + dy }
    } else if keys.backward {
        Vec2 { x: vel.x - dx, y: vel.y - dy }
    } else {
        vel
    }
}

/// Turning left raises the heading by `turn_of(dt)`, turning right lowers
/// it by the same amount, both angles taken modulo a full turn; holding both
/// or neither turns nothing.
pub proof fn lemma_rotation_sign(heading: u32, keys: Keys, dt: u32)
    ensures
        keys.left && !keys.right ==> (rotate_spec(heading as int, keys, dt as int) - heading - turn_of(dt as int)) % (TURN as int) == 0,
        keys.right && !keys.left ==> (rotate_spec(heading as int, keys, dt as int) - heading + turn_of(dt as int)) % (TURN as int) == 0,
        keys.left == keys.right ==> rotate_spec(heading as int, keys, dt as int) == heading,
{
    let h = heading as int;
    let t = turn_of(dt as int);
    let m = TURN as int;
    if keys.left && !keys.right {
        vstd::arithmetic::div_mod::lemma_fundamental_div_mod(h + t, m);
        vstd::arithmetic::div_mod::lemma_mod_multiples_basic(-((h + t) / m), m);
        assert((h + t) % m - h - t == -((h + t) / m) * m) by (nonlinear_arith)
            requires h + t == m * ((h + t) / m) + (h + t) % m;
    } else if keys.right && !keys.left {
        vstd::arithmetic::div_mod::lemma_fundamental_div_mod(h - t, m);
        vstd::arithmetic::div_mod::lemma_mod_multiples_basic(-((h - t) / m), m);
        assert((h - t) % m - h + t == -((h - t) / m) * m) by (nonlinear_arith)
            requires h - t == m * ((h - t) / m) + (h - t) % m;
    }
}

} // verus!

use asteroids::fire::{fire_input, shot, FireTrigger, MUZZLE_SPEED};
use asteroids::friction::{apply_friction, isqrt, FRICTION_DECEL};
use asteroids::motion::{advance, advance_all, integrate, wrap_axis, Body, Field, Vec2};
use asteroids::spawn::{new_ship, obstacle_from_draws, spawn_obstacles};
use asteroids::steering::{rotate, scale_toward_zero, thrust, Facing, Keys, ROTATION_RATE, TURN, UNIT};

const PX: i64 = 1_000_000;

fn keys(forward: bool, backward: bool, left: bool, right: bool) -> Keys {
    Keys { forward, backward, left, right }
}

fn up() -> Facing {
    Facing { x: 0, y: UNIT }
}

fn body(px: i64, py: i64, vx: i64, vy: i64) -> Body {
    Body { pos: Vec2 { x: px, y: py }, vel: Vec2 { x: vx, y: vy }, heading: 0 }
}

#[test]
fn wrap_keeps_exact_half() {
    assert_eq!(wrap_axis(400, 800), 400);
    assert_eq!(wrap_axis(-400, 800), -400);
}

#[test]
fn wrap_just_past_half() {
    assert_eq!(wrap_axis(401, 800), -399);
    assert_eq!(wrap_axis(-401, 800), 399);
    assert_eq!(wrap_axis(450, 800), -350);
}

#[test]
fn wrap_odd_side() {
    assert_eq!(wrap_axis(3, 7), 3);
    assert_eq!(wrap_axis(4, 7), -3);
    assert_eq!(wrap_axis(-4, 7), 3);
}

#[test]
fn wrap_is_single_step() {
    assert_eq!(wrap_axis(2000, 800), 1200);
}

#[test]
fn zero_dt_keeps_position() {
    let p = Vec2 { x: 123, y: -456 };
    let v = Vec2 { x: 99_999, y: -77_777 };
    assert_eq!(integrate(p, v, 0), p);
}

#[test]
fn integrate_moves_by_velocity_times_dt() {
    let p = Vec2 { x: 10, y: -20 };
    let v = Vec2 { x: 3, y: -4 };
    assert_eq!(integrate(p, v, 16), Vec2 { x: 58, y: -84 });
}

#[test]
fn advance_wraps_and_keeps_velocity() {
    let field = Field::new(800 * PX, 600 * PX);
    let mut b = body(399 * PX, 0, 2_000, 0);
    advance(&mut b, field, 1000);
    assert_eq!(b.pos, Vec2 { x: -399 * PX, y: 0 });
    assert_eq!(b.vel, Vec2 { x: 2_000, y: 0 });
}

#[test]
fn advance_all_moves_each_body() {
    let field = Field::new(800 * PX, 600 * PX);
    let mut all = vec![body(0, 0, 1, 2), body(0, 299 * PX, 0, 2_000)];
    advance_all(&mut all, field, 1000);
    assert_eq!(all[0].pos, Vec2 { x: 1000, y: 2000 });
    assert_eq!(all[1].pos, Vec2 { x: 0, y: -299 * PX });
}

#[test]
fn rotate_left_and_right() {
    let step = (ROTATION_RATE * 16) as u32;
    assert_eq!(rotate(1000, keys(false, false, true, false), 16), 1000 + step);
    assert_eq!(rotate(1000 + step, keys(false, false, false, true), 16), 1000);
}

#[test]
fn rotate_both_or_neither_keeps_heading() {
    assert_eq!(rotate(12345, keys(false, false, true, true), 16), 12345);
    assert_eq!(rotate(12345, keys(true, false, false, false), 16), 12345);
}

#[test]
fn rotate_wraps_round_full_turn() {
    let step = ROTATION_RATE * 10;
    assert_eq!(rotate(0, keys(false, false, false, true), 10) as u64, TURN - step);
}

#[test]
fn scale_rounds_toward_zero() {
    assert_eq!(scale_toward_zero(7, 3, 2), 10);
    assert_eq!(scale_toward_zero(-7, 3, 2), -10);
}

#[test]
fn thrust_forward_backward_and_none() {
    let v = Vec2 { x: 5, y: 5 };
    assert_eq!(thrust(v, up(), keys(true, false, false, false), 100), Vec2 { x: 5, y: 8_005 });
    assert_eq!(thrust(v, up(), keys(false, true, false, false), 100), Vec2 { x: 5, y: -7_995 });
    assert_eq!(thrust(v, up(), keys(true, true, false, false), 100), Vec2 { x: 5, y: 8_005 });
    assert_eq!(thrust(v, up(), keys(false, false, true, false), 100), v);
}

#[test]
fn forward_then_integrate_scenario() {
    let field = Field::new(800 * PX, 600 * PX);
    let mut ship = new_ship();
    let k = keys(true, false, false, false);
    ship.heading = rotate(ship.heading, k, 1000);
    assert_eq!(ship.heading, 0);
    ship.vel = thrust(ship.vel, up(), k, 1000);
    assert_eq!(ship.vel, Vec2 { x: 0, y: 80_000 });
    advance(&mut ship, field, 1000);
    assert_eq!(ship.pos, Vec2 { x: 0, y: 80 * PX });
}

#[test]
fn isqrt_values() {
    assert_eq!(isqrt(0), 0);
    assert_eq!(isqrt(15), 3);
    assert_eq!(isqrt(16), 4);
    assert_eq!(isqrt(u64::MAX), 0xFFFF_FFFF);
}

#[test]
fn friction_slows_along_direction() {
    let v = Vec2 { x: 3_000, y: 4_000 };
    let r = apply_friction(v, 10);
    assert_eq!(FRICTION_DECEL * 10, 300);
    assert_eq!(r, Vec2 { x: 2_820, y: 3_760 });
}

#[test]
fn friction_at_rest_stays_at_rest() {
    let v = Vec2 { x: 0, y: 0 };
    assert_eq!(apply_friction(v, 500), v);
}

#[test]
fn friction_overshoots_past_zero() {
    let v = Vec2 { x: 10, y: 0 };
    assert_eq!(apply_friction(v, 1), Vec2 { x: -20, y: 0 });
}

#[test]
fn friction_decays_within_bound() {
    let mut v = Vec2 { x: 0, y: 8_000 };
    let d = (FRICTION_DECEL * 16) as i64;
    let bound = (8_000 + d - 1) / d;
    let mut ticks = 0;
    let mut last = v.y;
    while v.y > 0 {
        v = apply_friction(v, 16);
        assert!(v.y < last);
        last = v.y;
        ticks += 1;
    }
    assert!(ticks <= bound);
}

#[test]
fn shot_adds_muzzle_velocity() {
    let ship = body(5, 6, 100, -100);
    let s = shot(&ship, up());
    assert_eq!(s.pos, ship.pos);
    assert_eq!(s.vel, Vec2 { x: 100, y: -100 + MUZZLE_SPEED as i64 });
    let side = shot(&ship, Facing { x: -UNIT, y: 0 });
    assert_eq!(side.vel, Vec2 { x: 100 - MUZZLE_SPEED as i64, y: -100 });
}

#[test]
fn held_fire_key_fires_once() {
    let ship = new_ship();
    let mut trigger = FireTrigger::new();
    let mut shots = 0;
    for _ in 0..10 {
        if fire_input(&mut trigger, true, Some(ship), up()).is_some() {
            shots += 1;
        }
    }
    assert_eq!(shots, 1);
    assert!(fire_input(&mut trigger, false, Some(ship), up()).is_none());
    assert!(fire_input(&mut trigger, true, Some(ship), up()).is_some());
}

#[test]
fn fire_without_ship_does_nothing() {
    let mut trigger = FireTrigger::new();
    assert!(fire_input(&mut trigger, true, None, up()).is_none());
    assert!(trigger.was_held);
}

#[test]
fn obstacle_from_draws_spreads() {
    let field = Field::new(800 * PX, 600 * PX);
    let b = obstacle_from_draws(field, 0, 0x8000_0000, 0, 0xC000_0000);
    assert_eq!(b.pos, Vec2 { x: -400 * PX, y: 0 });
    assert_eq!(b.vel, Vec2 { x: -40_000, y: 20_000 });
}

#[test]
fn spawned_obstacles_lie_in_field() {
    let field = Field::new(800 * PX, 600 * PX);
    let all = spawn_obstacles(field, 30);
    assert_eq!(all.len(), 30);
    for b in &all {
        assert!(2 * b.pos.x.abs() <= 800 * PX && 2 * b.pos.y.abs() <= 600 * PX);
        assert!(2 * b.vel.x.abs() <= 80_000 && 2 * b.vel.y.abs() <= 80_000);
    }
    assert!(all.iter().any(|b| b.pos != all[0].pos));
}

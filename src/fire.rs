use vstd::prelude::*;
use crate::motion::{Body, Vec2, MAX_SPEED};
use crate::steering::{Facing, UNIT, scale, scale_toward_zero};

verus! {

/// Muzzle speed of a shot, in micro-pixels per millisecond.
pub const MUZZLE_SPEED: u64 = 100_000;

/// Whether a key is pressed this tick and was not the tick before.
pub open spec fn rising(was_held: bool, held: bool) -> bool {
    held && !was_held
}

/// How many rising edges a run of ticks holds, starting after a tick in
/// which the key was `was_held`.
pub open spec fn presses(was_held: bool, held: Seq<bool>) -> nat
    decreases held.len(),
{
    if held.len() == 0 {
        0
    } else {
        (if rising(was_held, held[0]) { 1nat } else { 0nat }) + presses(held[0], held.drop_first())
    }
}

/// Remembers whether the fire key was held on the previous tick.
#[derive(Clone, Copy, Debug, PartialEq, Eq, Structural)]
pub struct FireTrigger {
    pub was_held: bool,
}

impl FireTrigger {
    pub fn new() -> (r: FireTrigger)
        ensures
            !r.was_held,
    {
        FireTrigger { was_held: false }
    }

    /// Records this tick's key state; true on a rising edge.
    pub fn press(&mut self, held: bool) -> (r: bool)
        ensures
            r == rising(old(self).was_held, held),
            final(self).was_held == held,
    {
        let r = held && !self.was_held;
        self.was_held = held;
        r
    }
}

/// The shot a ship fires: at the ship's position, with the ship's
/// velocity plus the muzzle velocity along the facing.
pub open spec fn shot_spec(ship: Body, facing: Facing) -> Body {
    Body {
        pos: ship.pos,
        vel: Vec2 {
            x: (ship.vel.x + scale(facing.x as int, MUZZLE_SPEED as int, UNIT as int)) as i64,
            y: (ship.vel.y + scale(facing.y as int, MUZZLE_SPEED as int, UNIT as int)) as i64,
        },
        heading: 0,
    }
}

/// Builds the shot that a ship facing `facing` fires.
pub fn shot(ship: &Body, facing: Facing) -> (r: Body)
    requires
        facing.wf(),
        -MAX_SPEED <= ship.vel.x <= MAX_SPEED,
        -MAX_SPEED <= ship.vel.y <= MAX_SPEED,
    ensures
        r == shot_spec(*ship, facing),
        r.vel.x == ship.vel.x + scale(facing.x as int, MUZZLE_SPEED as int, UNIT as int),
        r.vel.y == ship.vel.y + scale(facing.y as int, MUZZLE_SPEED as int, UNIT as int),
{
    let dx = scale_toward_zero(facing.x, MUZZLE_SPEED, UNIT as u64);
    let dy = scale_toward_zero(facing.y, MUZZLE_SPEED, UNIT as u64);
    Body { pos: ship.pos, vel: Vec2 { x: ship.vel.x + dx, y: ship.vel.y + dy }, heading: 0 }
}

/// One tick of the fire key: a shot on the rising edge when a ship is
/// present, nothing otherwise. The trigger records the key either way.
pub fn fire_input(trigger: &mut FireTrigger, held: bool, ship: Option<Body>, facing: Facing) -> (r: Option<Body>)
    requires
        facing.wf(),
        ship matches Some(s) ==> -MAX_SPEED <= s.vel.x <= MAX_SPEED && -MAX_SPEED <= s.vel.y <= MAX_SPEED,
    ensures
        final(trigger).was_held == held,
        r == (match ship {
            Some(s) => if rising(old(trigger).was_held, held) { Some(shot_spec(s, facing)) } else { None },
            None => None,
        }),
{
    let edge = trigger.press(held);
    match ship {
        Some(s) => if edge { Some(shot(&s, facing)) } else { None },
        None => None,
    }
}

/// Holding the fire key over any number of ticks, after a tick in which it
/// was up, counts as exactly one press.
pub proof fn lemma_held_key_fires_once(held: Seq<bool>)
    requires
        held.len() >= 1,
        forall|i: int| 0 <= i < held.len() ==> held[i],
    ensures
        presses(false, held) == 1,
{
    lemma_held_key_no_new_press(held.drop_first());
}

/// A key that stays held after a held tick adds no press.
pub proof fn lemma_held_key_no_new_press(held: Seq<bool>)
    requires
        forall|i: int| 0 <= i < held.len() ==> held[i],
    ensures
        presses(true, held) == 0,
    decreases held.len(),
{
    if held.len() > 0 {
        lemma_held_key_no_new_press(held.drop_first());
    }
}

} // verus!

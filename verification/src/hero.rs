//! The hero: its components, and the decisions of its movement and
//! animation that do not depend on exact speeds.
use crate::sign::Sign;
use vstd::prelude::*;

verus! {

/// Which way a jump goes.
#[derive(Copy, Clone, PartialEq, Eq, Debug, Structural)]
pub enum JumpDirection {
    UP,
    LEFT,
    RIGHT,
    NONE,
}

/// Which panda the player plays.
#[derive(Clone, Copy, PartialEq, Eq, Debug, Structural)]
pub enum PandaType {
    GiantPanda,
    RedPanda,
}

/// The other panda.
pub open spec fn other_panda(panda: PandaType) -> PandaType {
    match panda {
        PandaType::GiantPanda => PandaType::RedPanda,
        PandaType::RedPanda => PandaType::GiantPanda,
    }
}

/// The other panda.
pub fn invert(panda: PandaType) -> (r: PandaType)
    ensures
        r == other_panda(panda),
{
    match panda {
        PandaType::GiantPanda => PandaType::RedPanda,
        PandaType::RedPanda => PandaType::GiantPanda,
    }
}

/// The hero jumped in the given direction.
#[derive(Clone, Copy, PartialEq, Eq, Debug)]
pub struct Jumped(pub JumpDirection);

/// Marks the entity that the player controls.
#[derive(Clone, Copy, Debug)]
pub struct Hero;

/// Whether the hero is in water, where it shows as the other panda.
#[derive(Clone, Copy, Debug, PartialEq, Eq)]
pub struct IsInWater(pub bool);

/// The direction the player steers in.
#[derive(Clone, Copy, Debug, PartialEq, Eq)]
pub struct MovingX(pub Sign);

/// The direction the hero faces.
#[derive(Clone, Copy, Debug, PartialEq, Eq)]
pub struct Facing(pub Sign);

/// The direction a jump would take, given the signs of the push that the
/// scenery gave the hero: up off the ground, away from a wall otherwise.
pub open spec fn push_direction_spec(push_x: Sign, push_y: Sign) -> JumpDirection {
    if push_y == Sign::POSITIVE {
        JumpDirection::UP
    } else if push_x == Sign::POSITIVE {
        JumpDirection::RIGHT
    } else if push_x == Sign::NEGATIVE {
        JumpDirection::LEFT
    } else {
        JumpDirection::NONE
    }
}

/// The direction a jump would take now (see [`push_direction_spec`]).
pub fn push_direction(push_x: Sign, push_y: Sign) -> (r: JumpDirection)
    ensures
        r == push_direction_spec(push_x, push_y),
{
    if push_y == Sign::POSITIVE {
        JumpDirection::UP
    } else if push_x == Sign::POSITIVE {
        JumpDirection::RIGHT
    } else if push_x == Sign::NEGATIVE {
        JumpDirection::LEFT
    } else {
        JumpDirection::NONE
    }
}

/// Pressing jump: the hero jumps in the direction it may still jump in;
/// with none (`None`) the press is remembered and a jump follows as soon
/// as one is possible.
pub fn jump(direction: JumpDirection) -> (r: Option<Jumped>)
    ensures
        direction == JumpDirection::NONE ==> r is None,
        direction != JumpDirection::NONE ==> r == Some(Jumped(direction)),
{
    if direction != JumpDirection::NONE {
        Some(Jumped(direction))
    } else {
        None
    }
}

/// The hero faces the way it moves, and keeps facing the same way when it stops.
pub fn facing(moving: Sign, old: Facing) -> (r: Facing)
    ensures
        moving == Sign::ZERO ==> r == old,
        moving != Sign::ZERO ==> r == Facing(moving),
{
    match moving {
        Sign::POSITIVE => Facing(Sign::POSITIVE),
        Sign::NEGATIVE => Facing(Sign::NEGATIVE),
        Sign::ZERO => old,
    }
}

/// How the hero sticks to a wall that pushes it away (push sign `push_x`)
/// while the player steers with `steer`: the direction of the nudge back
/// towards the wall (zero for none), and whether the fall is slowed, which
/// it is while the player steers away from the wall.
pub fn wall_stick(push_x: Sign, steer: Sign) -> (r: (Sign, bool))
    ensures
        push_x == Sign::POSITIVE && steer == Sign::NEGATIVE ==> r == (Sign::NEGATIVE, true),
        push_x == Sign::POSITIVE && steer == Sign::ZERO ==> r == (Sign::NEGATIVE, false),
        push_x == Sign::NEGATIVE && steer == Sign::POSITIVE ==> r == (Sign::POSITIVE, true),
        push_x == Sign::NEGATIVE && steer == Sign::ZERO ==> r == (Sign::POSITIVE, false),
        push_x == Sign::ZERO || push_x == steer ==> r == (Sign::ZERO, false),
{
    match (push_x, steer) {
        (Sign::POSITIVE, Sign::NEGATIVE) => (Sign::NEGATIVE, true),
        (Sign::POSITIVE, Sign::ZERO) => (Sign::NEGATIVE, false),
        (Sign::NEGATIVE, Sign::POSITIVE) => (Sign::POSITIVE, true),
        (Sign::NEGATIVE, Sign::ZERO) => (Sign::POSITIVE, false),
        _ => (Sign::ZERO, false),
    }
}

/// The tile of the hero's pose: in the air it rises, drags down a wall or
/// falls; on the ground it stands when stopped, and otherwise runs through
/// a cycle of four frames, `frame` picking one.
pub fn hero_tile(airborne: bool, rising: bool, against_wall: bool, stopped: bool, frame: usize) -> (r: (i32, i32))
    ensures
        airborne && rising ==> r == (2i32, 0i32),
        airborne && !rising && against_wall ==> r == (1i32, 0i32),
        airborne && !rising && !against_wall ==> r == (3i32, 0i32),
        !airborne && stopped ==> r == (0i32, 1i32),
        !airborne && !stopped ==> r == (if frame % 4 == 0 {
            (1i32, 1i32)
        } else if frame % 4 == 2 {
            (3i32, 1i32)
        } else {
            (2i32, 1i32)
        }),
{
    if airborne {
        if rising {
            (2, 0)
        } else if against_wall {
            (1, 0)
        } else {
            (3, 0)
        }
    } else if stopped {
        (0, 1)
    } else {
        let f = frame % 4;
        if f == 0 {
            (1, 1)
        } else if f == 2 {
            (3, 1)
        } else {
            (2, 1)
        }
    }
}

/// Where the hero's sprite sits on the sheet, and whether it is mirrored.
#[derive(Clone, Copy, Debug, PartialEq, Eq)]
pub struct HeroSprite {
    pub x: i32,
    pub y: i32,
    pub flip_x: bool,
}

/// The row offset of a panda's sprites on the sheet.
pub open spec fn panda_offset(panda: PandaType) -> int {
    match panda {
        PandaType::GiantPanda => 1,
        PandaType::RedPanda => 4,
    }
}

/// The hero's sprite for a pose tile: the panda's rows, the other panda's
/// in water; mirrored when facing left, and the other way when dragging
/// down a wall.
pub fn hero_sprite(tile: (i32, i32), facing: Facing, in_water: IsInWater, panda: PandaType) -> (r: HeroSprite)
    requires
        tile.1 <= i32::MAX - 4,
    ensures
        r.x == tile.0,
        r.y == tile.1 + panda_offset(if in_water.0 { other_panda(panda) } else { panda }),
        r.flip_x == ((facing.0 == Sign::NEGATIVE) != (tile == (1i32, 0i32))),
{
    let shown = if in_water.0 { invert(panda) } else { panda };
    let offset: i32 = match shown {
        PandaType::GiantPanda => 1,
        PandaType::RedPanda => 4,
    };
    let mut flip_x = facing.0 == Sign::NEGATIVE;
    if tile.0 == 1 && tile.1 == 0 {
        flip_x = !flip_x;
    }
    HeroSprite { x: tile.0, y: tile.1 + offset, flip_x }
}


/// Law: a jump goes up exactly when the scenery pushed the hero up, that
/// is when it stands on the ground; a push down, off a ceiling, gives no
/// jump of its own. Otherwise a jump goes away from a wall the hero
/// touches: right off a push to the right, left off a push to the left.
/// With no push up and none sideways there is no jump at all.
pub proof fn law_jumps_go_away_from_the_push(push_x: Sign, push_y: Sign)
    ensures
        (push_direction_spec(push_x, push_y) == JumpDirection::UP) <==> push_y == Sign::POSITIVE,
        push_y != Sign::POSITIVE && push_x == Sign::POSITIVE ==> push_direction_spec(push_x, push_y)
            == JumpDirection::RIGHT,
        push_y != Sign::POSITIVE && push_x == Sign::NEGATIVE ==> push_direction_spec(push_x, push_y)
            == JumpDirection::LEFT,
        push_y != Sign::POSITIVE && push_x == Sign::ZERO ==> push_direction_spec(push_x, push_y)
            == JumpDirection::NONE,
{
}

} // verus!

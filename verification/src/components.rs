//! Components shared by many kinds of entity, and the events they raise.
use vstd::prelude::*;

verus! {

/// The entity falls.
#[derive(Clone, Copy, Debug, PartialEq, Eq)]
pub struct Gravity;

/// The entity blocks movement.
#[derive(Clone, Copy, Debug, PartialEq, Eq)]
pub struct Obstacle;

/// The entity takes part in collisions.
#[derive(Clone, Copy, Debug, PartialEq, Eq)]
pub struct Collidable;

/// How an entity acts on the hero when they touch.
#[derive(Clone, Copy, Debug, PartialEq, Eq, Structural)]
pub enum Interacts {
    Spring,
}

/// The hero touched an entity that acts on it.
#[derive(Clone, Copy, Debug, PartialEq, Eq)]
pub struct Interaction {
    pub hero_id: u64,
    pub other_id: u64,
    pub interaction_type: Interacts,
}

/// The entity with this id goes away.
#[derive(Clone, Copy, Debug, PartialEq, Eq)]
pub struct Destroy(pub u64);

/// Whether a flickering entity shows its sprite on this frame.
#[derive(Clone, Copy, Debug, PartialEq, Eq)]
pub struct Flicker(pub bool);

/// One frame of flickering: whether the sprite shows on this frame, and
/// the flag for the next frame.
pub open spec fn flicker_step(f: Flicker) -> (bool, Flicker) {
    (f.0, Flicker(!f.0))
}

/// One frame of flickering: the sprite is shown on this frame exactly when
/// the flag is set (the first part of the result), and the flag flips.
pub fn flicker(f: Flicker) -> (r: (bool, Flicker))
    ensures
        r == flicker_step(f),
{
    (f.0, Flicker(!f.0))
}

/// Law: a flickering entity shows its sprite on every other frame: two
/// frames in a row differ, and after two frames the flag is back.
pub proof fn law_flicker_alternates(f: Flicker)
    ensures
        flicker_step(f).0 != flicker_step(flicker_step(f).1).0,
        flicker_step(flicker_step(f).1).1 == f,
{
}

} // verus!

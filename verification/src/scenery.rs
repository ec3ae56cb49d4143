//! Scenery that reacts to the hero: lockboxes that the key opens, blocks
//! that crumble when touched, and bubbles.
use crate::chest::KeyCollected;
use crate::entity::{ids_of_both, Entities};
use vstd::prelude::*;

verus! {

/// Marks an entity as a lockbox, which blocks the way until the key is collected.
#[derive(Clone, Copy, Debug)]
pub struct Lockbox;

/// Marks an entity as a block that crumbles when something lands on it.
#[derive(Clone, Copy, Debug)]
pub struct Crumbler;

/// Marks an entity as a bubble, which pops when the hero hits it.
#[derive(Clone, Copy, Debug)]
pub struct Bubble;

/// When the key is collected every lockbox goes: the ids of the entities
/// with a component of kind `lockbox` and one of kind `position`, in id
/// order. Each of them is destroyed, with sparkles at its position.
pub fn open_lockboxes<V>(_key: &KeyCollected, entities: &Entities<V>, lockbox: u64, position: u64) -> (r: Vec<u64>)
    ensures
        r@ == ids_of_both(entities@.entities, lockbox, position),
{
    entities.ids_with_both(lockbox, position)
}

/// Whether the scenery that was touched crumbles: it does when the entity
/// with that id has a component of kind `crumbler` and one of kind
/// `position`. It is then destroyed, and crumbs appear at its position.
pub fn crumble<V>(scenery_id: u64, entities: &Entities<V>, crumbler: u64, position: u64) -> (r: bool)
    ensures
        r == ids_of_both(entities@.entities, crumbler, position).contains(scenery_id),
{
    let ids = entities.ids_with_both(crumbler, position);
    let n = ids.len();
    let mut i: usize = 0;
    while i < n
        invariant
            n == ids@.len(),
            ids@ == ids_of_both(entities@.entities, crumbler, position),
            i <= n,
            forall|j: int| 0 <= j < i ==> ids@[j] != scenery_id,
        decreases n - i,
    {
        if ids[i] == scenery_id {
            assert(ids@[i as int] == scenery_id);
            return true;
        }
        i = i + 1;
    }
    false
}

} // verus!

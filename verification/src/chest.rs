//! Chests, which open when the key is collected.
use crate::entity::{ids, ids_of, Entities};
use vstd::prelude::*;

verus! {

/// Marks an entity as a closed chest.
#[derive(Clone, Copy, Debug)]
pub struct Chest;

/// The key was collected.
#[derive(Clone, Copy, Debug, PartialEq, Eq)]
pub struct KeyCollected;

/// The chest with this entity id opens.
#[derive(Clone, Copy, Debug, PartialEq, Eq)]
pub struct OpenChest {
    pub id: u64,
}

/// When the key is collected every chest opens: one [`OpenChest`] for each
/// entity with a component of kind `chest`, in id order.
pub fn open_chests<V>(_key: &KeyCollected, entities: &Entities<V>, chest: u64) -> (r: Vec<OpenChest>)
    ensures
        r@.len() == ids_of(entities@.entities, chest).len(),
        forall|i: int| 0 <= i < r@.len() ==> (#[trigger] r@[i]).id == ids_of(entities@.entities, chest)[i],
{
    let ids = entities.ids_with(chest);
    let mut r: Vec<OpenChest> = Vec::new();
    let n = ids.len();
    let mut i: usize = 0;
    while i < n
        invariant
            n == ids@.len(),
            ids@ == ids_of(entities@.entities, chest),
            i <= n,
            r@.len() == i,
            forall|j: int| 0 <= j < i ==> (#[trigger] r@[j]).id == ids@[j],
        decreases n - i,
    {
        r.push(OpenChest { id: ids[i] });
        i = i + 1;
    }
    r
}

/// Opens one chest: the chest entity goes away, and the component of kind
/// `position` that it had comes back, for the open chest and the ruby to
/// appear there. An id that is not live leaves the store as it is.
pub fn open_chest<V>(open: &OpenChest, entities: &mut Entities<V>, position: u64) -> (r: Option<V>)
    ensures
        final(entities)@.next_id == old(entities)@.next_id,
        ids(old(entities)@.entities).contains(open.id) ==> exists|i: int|
            0 <= i < old(entities)@.entities.len() && old(entities)@.entities[i].0 == open.id
                && final(entities)@.entities == old(entities)@.entities.remove(i)
                && r == (if old(entities)@.entities[i].1.contains_key(position) {
                    Some(old(entities)@.entities[i].1[position])
                } else {
                    None
                }),
        !ids(old(entities)@.entities).contains(open.id) ==> final(entities)@ == old(entities)@ && r is None,
{
    match entities.delete(&open.id) {
        Some(e) => {
            proof {
                let olds = old(entities)@.entities;
                let i = choose|i: int| 0 <= i < olds.len() && olds[i] == e@ && e@.0 == open.id
                    && final(entities)@.entities == olds.remove(i);
                assert(ids(olds)[i] == open.id);
            }
            let mut e = e;
            e.remove(position)
        },
        None => None,
    }
}

} // verus!

//! Things the hero picks up, and what picking them up does.
use crate::chest::KeyCollected;
use crate::game::{ReachedDoor, Score};
use vstd::prelude::*;

verus! {

/// Marks an entity as something to pick up.
#[derive(Clone, Copy, Debug)]
pub struct Pickup;

/// The pickup with this entity id was collected.
#[derive(Clone, Copy, Debug, PartialEq, Eq)]
pub struct PickupCollected(pub u64);

/// A visual effect shown where a pickup was collected.
#[derive(Clone, Copy, Debug, PartialEq, Eq)]
pub enum OnPickupEffect {
    Sparkles,
}

/// Text shown where a pickup was collected.
#[derive(Clone, Copy, Debug, PartialEq, Eq)]
pub struct OnPickupText(pub &'static str);

/// What collecting a pickup does to the game.
#[derive(Clone, Debug, PartialEq, Eq)]
pub enum OnPickupDo {
    Score(u32),
    CollectFruit(u32),
    DoubleScore,
    OpenChests,
    CompleteLevel(String),
}

/// The event that collecting a pickup raises.
#[derive(Clone, Debug, PartialEq, Eq)]
pub enum PickupOutcome {
    Score(Score),
    KeyCollected(KeyCollected),
    ReachedDoor(ReachedDoor),
}

/// The event for a pickup's action: points score, fruit scores as fruit,
/// a doubler doubles, the key opens the chests, a door leads to its level.
pub fn pickup_outcome(action: OnPickupDo) -> (r: PickupOutcome)
    ensures
        match action {
            OnPickupDo::Score(p) => r == PickupOutcome::Score(Score::Points(p)),
            OnPickupDo::CollectFruit(p) => r == PickupOutcome::Score(Score::Fruit(p)),
            OnPickupDo::DoubleScore => r == PickupOutcome::Score(Score::Double),
            OnPickupDo::OpenChests => r == PickupOutcome::KeyCollected(KeyCollected),
            OnPickupDo::CompleteLevel(next) => r matches PickupOutcome::ReachedDoor(ReachedDoor(l)) && l@ == next@,
        },
{
    match action {
        OnPickupDo::Score(p) => PickupOutcome::Score(Score::Points(p)),
        OnPickupDo::CollectFruit(p) => PickupOutcome::Score(Score::Fruit(p)),
        OnPickupDo::DoubleScore => PickupOutcome::Score(Score::Double),
        OnPickupDo::OpenChests => PickupOutcome::KeyCollected(KeyCollected),
        OnPickupDo::CompleteLevel(next) => PickupOutcome::ReachedDoor(ReachedDoor(next)),
    }
}

/// The kinds of fruit; each scores as fruit when collected.
#[derive(Clone, Copy, Debug, PartialEq, Eq, Structural)]
pub enum Fruit {
    APPLE,
    BANANA,
    CHERRY,
    GRAPES,
    WATERMELON,
}

/// The tile of a fruit's sprite on the sheet.
pub fn fruit_tile(fruit: Fruit) -> (r: (i32, i32))
    ensures
        fruit == Fruit::APPLE ==> r == (6i32, 4i32),
        fruit == Fruit::BANANA ==> r == (5i32, 4i32),
        fruit == Fruit::CHERRY ==> r == (4i32, 4i32),
        fruit == Fruit::GRAPES ==> r == (4i32, 3i32),
        fruit == Fruit::WATERMELON ==> r == (7i32, 4i32),
{
    match fruit {
        Fruit::APPLE => (6, 4),
        Fruit::BANANA => (5, 4),
        Fruit::CHERRY => (4, 4),
        Fruit::GRAPES => (4, 3),
        Fruit::WATERMELON => (7, 4),
    }
}

} // verus!

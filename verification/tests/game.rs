use pandamonium::chest::{open_chests, KeyCollected, OpenChest};
use pandamonium::entity::{entity, Entities};
use pandamonium::game::{GameAction, GameInput, GameOver, ReachedDoor, Score, Scoreboard, LONG_PAUSE, SHORT_PAUSE};
use pandamonium::pickup::{pickup_outcome, OnPickupDo, PickupOutcome};

fn board() -> Scoreboard {
    Scoreboard::new("start".to_string())
}

#[test]
fn points_are_multiplied() {
    let mut b = board();
    assert!(b.on_event(GameInput::Score(Score::Points(100))).is_empty());
    assert_eq!(100, b.score());
    b.on_event(GameInput::IncreaseMultiplier);
    b.on_event(GameInput::Score(Score::Points(5)));
    assert_eq!(110, b.score());
    b.on_event(GameInput::Score(Score::Double));
    assert_eq!(220, b.score());
}

#[test]
fn the_multiplier_stops_at_five() {
    let mut b = board();
    for _ in 0..10 {
        b.on_event(GameInput::IncreaseMultiplier);
    }
    assert_eq!(5, b.multiplier());
}

#[test]
fn the_fifth_fruit_makes_a_salad() {
    let mut b = board();
    for _ in 0..4 {
        assert!(b.on_event(GameInput::Score(Score::Fruit(20))).is_empty());
    }
    let actions = b.on_event(GameInput::Score(Score::Fruit(20)));
    assert!(matches!(actions[..], [GameAction::IncreaseMultiplier, GameAction::FruitSalad]));
    assert_eq!(100, b.score());
    assert_eq!(5, b.fruit_collected());
    assert!(b.on_event(GameInput::Score(Score::Fruit(20))).is_empty());
}

#[test]
fn failing_with_a_multiplier_retries_the_level() {
    let mut b = board();
    b.on_event(GameInput::IncreaseMultiplier);
    let actions = b.on_event(GameInput::Fail);
    assert_eq!(1, b.multiplier());
    match &actions[..] {
        [GameAction::Pause(p), GameAction::NewLevel { delay, level }] => {
            assert_eq!(SHORT_PAUSE, *p);
            assert_eq!(SHORT_PAUSE, *delay);
            assert_eq!("start", level.as_str());
        },
        _ => panic!("unexpected actions {:?}", actions),
    }
}

#[test]
fn failing_without_a_multiplier_ends_the_game() {
    let mut b = board();
    b.on_event(GameInput::Score(Score::Points(7)));
    let actions = b.on_event(GameInput::Fail);
    match &actions[..] {
        [GameAction::Pause(p), GameAction::GameOver { delay, over }] => {
            assert_eq!(LONG_PAUSE, *p);
            assert_eq!(LONG_PAUSE, *delay);
            assert_eq!(GameOver(7), *over);
        },
        _ => panic!("unexpected actions {:?}", actions),
    }
}

#[test]
fn a_door_leads_to_its_level_if_there_is_one() {
    let mut b = board();
    let actions = b.on_event(GameInput::ReachedDoor { next_level: "two".to_string(), exists: true });
    match &actions[..] {
        [GameAction::IncreaseMultiplier, GameAction::Pause(p), GameAction::NewLevel { delay, level }] => {
            assert_eq!(SHORT_PAUSE, *p);
            assert_eq!(SHORT_PAUSE, *delay);
            assert_eq!("two", level.as_str());
        },
        _ => panic!("unexpected actions {:?}", actions),
    }
    let actions = b.on_event(GameInput::ReachedDoor { next_level: "nowhere".to_string(), exists: false });
    assert!(matches!(actions[..], [GameAction::Pause(LONG_PAUSE), GameAction::GameOver { delay: LONG_PAUSE, over: GameOver(0) }]));
}

#[test]
fn a_new_level_resets_the_fruit() {
    let mut b = board();
    b.on_event(GameInput::Score(Score::Fruit(1)));
    let actions = b.on_event(GameInput::NewLevel("two".to_string()));
    assert_eq!(0, b.fruit_collected());
    assert_eq!("two", b.current_level().as_str());
    match &actions[..] {
        [GameAction::BuildLevel(level)] => assert_eq!("two", level.as_str()),
        _ => panic!("unexpected actions {:?}", actions),
    }
}

#[test]
fn pickups_raise_their_events() {
    assert_eq!(PickupOutcome::Score(Score::Points(5)), pickup_outcome(OnPickupDo::Score(5)));
    assert_eq!(PickupOutcome::Score(Score::Fruit(20)), pickup_outcome(OnPickupDo::CollectFruit(20)));
    assert_eq!(PickupOutcome::Score(Score::Double), pickup_outcome(OnPickupDo::DoubleScore));
    assert_eq!(PickupOutcome::KeyCollected(KeyCollected), pickup_outcome(OnPickupDo::OpenChests));
    assert_eq!(
        PickupOutcome::ReachedDoor(ReachedDoor("level2".to_string())),
        pickup_outcome(OnPickupDo::CompleteLevel("level2".to_string()))
    );
}

#[test]
fn the_key_opens_every_chest() {
    const CHEST: u64 = 1;
    const OTHER: u64 = 2;
    let mut entities: Entities<()> = Entities::new();
    entities.spawn(entity().with(OTHER, ()));
    entities.spawn(entity().with(CHEST, ()));
    entities.spawn(entity().with(CHEST, ()).with(OTHER, ()));
    assert_eq!(vec![OpenChest { id: 1 }, OpenChest { id: 2 }], open_chests(&KeyCollected, &entities, CHEST));
}

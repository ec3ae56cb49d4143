use pandamonium::chest::{open_chest, open_chests, KeyCollected, OpenChest};
use pandamonium::components::{flicker, Flicker};
use pandamonium::entity::{entity, Entities};
use pandamonium::flashlamp::{
    flashbulb_events, flashbulb_tile, new_flashbulb, FBColor, FlashbulbColor, FlashbulbEvent, FlashbulbLit,
    LightFlashbulb, TurnFlashbulbsRed, TurnFlashbulbsYellow,
};
use pandamonium::hero::{
    facing, hero_sprite, hero_tile, jump, push_direction, wall_stick, Facing, IsInWater, JumpDirection, Jumped,
    PandaType,
};
use pandamonium::pickup::{fruit_tile, Fruit};
use pandamonium::scenery::{crumble, open_lockboxes};
use pandamonium::sign::Sign;

const CHEST: u64 = 1;
const LOCKBOX: u64 = 2;
const CRUMBLER: u64 = 3;
const POSITION: u64 = 4;

#[derive(Debug, Clone, PartialEq)]
enum C {
    Marker,
    Position(i32, i32),
}

fn scenery() -> Entities<C> {
    let mut entities = Entities::new();
    entities.spawn(entity().with(CHEST, C::Marker).with(POSITION, C::Position(1, 2)));
    entities.spawn(entity().with(LOCKBOX, C::Marker).with(POSITION, C::Position(3, 4)));
    entities.spawn(entity().with(LOCKBOX, C::Marker));
    entities.spawn(entity().with(CRUMBLER, C::Marker).with(POSITION, C::Position(5, 6)));
    entities.spawn(entity().with(CHEST, C::Marker).with(POSITION, C::Position(7, 8)));
    entities
}

#[test]
fn the_key_opens_the_chests_in_id_order() {
    let entities = scenery();
    let opened = open_chests(&KeyCollected, &entities, CHEST);
    assert_eq!(vec![OpenChest { id: 0 }, OpenChest { id: 4 }], opened);
}

#[test]
fn an_opened_chest_goes_and_gives_its_position() {
    let mut entities = scenery();
    assert_eq!(Some(C::Position(7, 8)), open_chest(&OpenChest { id: 4 }, &mut entities, POSITION));
    assert_eq!(4, entities.len());
    assert!(entities.get(4).is_none());
    assert_eq!(None, open_chest(&OpenChest { id: 4 }, &mut entities, POSITION));
    assert_eq!(4, entities.len());
}

#[test]
fn the_key_opens_lockboxes_with_a_position() {
    let entities = scenery();
    assert_eq!(vec![1], open_lockboxes(&KeyCollected, &entities, LOCKBOX, POSITION));
}

#[test]
fn only_crumblers_crumble() {
    let entities = scenery();
    assert!(crumble(3, &entities, CRUMBLER, POSITION));
    assert!(!crumble(1, &entities, CRUMBLER, POSITION));
    assert!(!crumble(99, &entities, CRUMBLER, POSITION));
}

#[test]
fn flicker_shows_every_other_frame() {
    let (shown, next) = flicker(Flicker(true));
    assert!(shown);
    assert_eq!(Flicker(false), next);
    let (shown, next) = flicker(next);
    assert!(!shown);
    assert_eq!(Flicker(true), next);
}

#[test]
fn bulbs_light_in_their_colour_and_change_colour_when_lit() {
    let bulb = new_flashbulb(7);
    assert_eq!(FBColor::OFF, bulb.shown);
    let other = flashbulb_events(&bulb, &FlashbulbEvent::Light(LightFlashbulb(8)));
    assert_eq!(bulb, other);
    let lit = flashbulb_events(&bulb, &FlashbulbEvent::Light(LightFlashbulb(7)));
    assert_eq!(FlashbulbLit(true), lit.lit);
    assert_eq!(FBColor::GREEN, lit.shown);
    let yellow = flashbulb_events(&lit, &FlashbulbEvent::TurnYellow(TurnFlashbulbsYellow));
    assert_eq!(FlashbulbColor(FBColor::YELLOW), yellow.color);
    assert_eq!(FBColor::YELLOW, yellow.shown);
    let unlit_red = flashbulb_events(&bulb, &FlashbulbEvent::TurnRed(TurnFlashbulbsRed));
    assert_eq!(FlashbulbColor(FBColor::RED), unlit_red.color);
    assert_eq!(FBColor::OFF, unlit_red.shown);
    let lit_red = flashbulb_events(&unlit_red, &FlashbulbEvent::Light(LightFlashbulb(7)));
    assert_eq!(FBColor::RED, lit_red.shown);
}

#[test]
fn bulb_sprites() {
    assert_eq!((7, 4), flashbulb_tile(FBColor::GREEN));
    assert_eq!((7, 5), flashbulb_tile(FBColor::YELLOW));
    assert_eq!((7, 6), flashbulb_tile(FBColor::RED));
    assert_eq!((6, 4), flashbulb_tile(FBColor::OFF));
}

#[test]
fn fruit_sprites() {
    assert_eq!((6, 4), fruit_tile(Fruit::APPLE));
    assert_eq!((5, 4), fruit_tile(Fruit::BANANA));
    assert_eq!((4, 4), fruit_tile(Fruit::CHERRY));
    assert_eq!((4, 3), fruit_tile(Fruit::GRAPES));
    assert_eq!((7, 4), fruit_tile(Fruit::WATERMELON));
}

#[test]
fn jumps_go_up_off_the_ground_and_away_from_walls() {
    assert_eq!(JumpDirection::UP, push_direction(Sign::POSITIVE, Sign::POSITIVE));
    assert_eq!(JumpDirection::RIGHT, push_direction(Sign::POSITIVE, Sign::ZERO));
    assert_eq!(JumpDirection::LEFT, push_direction(Sign::NEGATIVE, Sign::NEGATIVE));
    assert_eq!(JumpDirection::NONE, push_direction(Sign::ZERO, Sign::ZERO));
    assert_eq!(Some(Jumped(JumpDirection::LEFT)), jump(JumpDirection::LEFT));
    assert_eq!(None, jump(JumpDirection::NONE));
}

#[test]
fn the_hero_faces_where_it_moves() {
    assert_eq!(Facing(Sign::NEGATIVE), facing(Sign::NEGATIVE, Facing(Sign::POSITIVE)));
    assert_eq!(Facing(Sign::NEGATIVE), facing(Sign::ZERO, Facing(Sign::NEGATIVE)));
}

#[test]
fn the_hero_sticks_to_walls() {
    assert_eq!((Sign::NEGATIVE, true), wall_stick(Sign::POSITIVE, Sign::NEGATIVE));
    assert_eq!((Sign::NEGATIVE, false), wall_stick(Sign::POSITIVE, Sign::ZERO));
    assert_eq!((Sign::POSITIVE, true), wall_stick(Sign::NEGATIVE, Sign::POSITIVE));
    assert_eq!((Sign::POSITIVE, false), wall_stick(Sign::NEGATIVE, Sign::ZERO));
    assert_eq!((Sign::ZERO, false), wall_stick(Sign::POSITIVE, Sign::POSITIVE));
    assert_eq!((Sign::ZERO, false), wall_stick(Sign::ZERO, Sign::NEGATIVE));
}

#[test]
fn hero_poses() {
    assert_eq!((2, 0), hero_tile(true, true, false, false, 0));
    assert_eq!((1, 0), hero_tile(true, false, true, false, 0));
    assert_eq!((3, 0), hero_tile(true, false, false, false, 0));
    assert_eq!((0, 1), hero_tile(false, false, false, true, 3));
    assert_eq!((1, 1), hero_tile(false, false, false, false, 4));
    assert_eq!((2, 1), hero_tile(false, false, false, false, 5));
    assert_eq!((3, 1), hero_tile(false, false, false, false, 6));
    assert_eq!((2, 1), hero_tile(false, false, false, false, 7));
}

#[test]
fn hero_sprites_use_the_panda_rows() {
    let s = hero_sprite((0, 1), Facing(Sign::POSITIVE), IsInWater(false), PandaType::GiantPanda);
    assert_eq!((0, 2, false), (s.x, s.y, s.flip_x));
    let s = hero_sprite((0, 1), Facing(Sign::NEGATIVE), IsInWater(true), PandaType::GiantPanda);
    assert_eq!((0, 5, true), (s.x, s.y, s.flip_x));
    let s = hero_sprite((1, 0), Facing(Sign::NEGATIVE), IsInWater(false), PandaType::RedPanda);
    assert_eq!((1, 4, false), (s.x, s.y, s.flip_x));
}

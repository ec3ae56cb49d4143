use pandamonium::font::{char_tile, position};
use pandamonium::fps_counter::{slow_frame, FpsCounter};
use pandamonium::world::{
    countdown_timers, flashlamp_positions, hero_timers, pixels, LevelTimer, PixelImage, Placement, TileDef, TileType, LAMP_COUNT,
};

#[test]
fn characters_map_to_font_tiles() {
    assert_eq!((0, 0), char_tile('0'));
    assert_eq!((9, 0), char_tile('9'));
    assert_eq!((0, 1), char_tile('a'));
    assert_eq!((0, 2), char_tile('k'));
    assert_eq!((5, 3), char_tile('z'));
    assert_eq!((0, 4), char_tile('A'));
    assert_eq!((5, 6), char_tile('Z'));
    assert_eq!((6, 3), char_tile(':'));
    assert_eq!((7, 3), char_tile('-'));
    assert_eq!((8, 3), char_tile('?'));
    assert_eq!((9, 3), char_tile('!'));
    assert_eq!((6, 6), char_tile('.'));
    assert_eq!((7, 6), char_tile(','));
    assert_eq!((8, 6), char_tile(' '));
    assert_eq!((9, 6), char_tile('#'));
    assert_eq!((3, 12), position('n', 'a', 11));
}

#[test]
fn flash_lamps_ring_the_playfield() {
    let lamps = flashlamp_positions();
    assert_eq!(LAMP_COUNT, lamps.len());
    assert_eq!((17, 19), lamps[0]);
    assert_eq!((29, 19), lamps[12]);
    assert_eq!((29, 18), lamps[13]);
    assert_eq!((29, 0), lamps[31]);
    assert_eq!((0, 0), lamps[60]);
    assert_eq!((0, 18), lamps[78]);
    assert_eq!((12, 19), lamps[91]);
}

#[test]
fn pixels_of_a_colour_are_found_from_the_bottom() {
    let red = (255, 0, 0);
    let black = (0, 0, 0);
    // 3 wide, 2 high, top row first.
    let image = PixelImage::new(3, 2, vec![red, black, black, black, black, red]).unwrap();
    let mut found = pixels(&image, red);
    found.sort();
    assert_eq!(vec![(0, 1), (2, 0)], found);
    assert!(pixels(&image, (1, 2, 3)).is_empty());
    assert!(PixelImage::new(3, 2, vec![red]).is_none());
}

#[test]
fn tiles_place_what_their_type_names() {
    let def = |t: Option<&str>| TileDef { x: 0, y: 0, user_type: t.map(|s| s.to_string()) };
    assert_eq!(Placement::Tile(TileType::STONE), def(Some("Wall")).placement());
    assert_eq!(Placement::Tile(TileType::LEDGE), def(Some("Ledge")).placement());
    assert_eq!(Placement::Tile(TileType::DECORATION), def(None).placement());
    assert_eq!(Placement::Hero, def(Some("Hero")).placement());
    assert_eq!(Placement::Coin, def(Some("Coin")).placement());
    assert_eq!(Placement::Lockbox, def(Some("Lockbox")).placement());
    assert_eq!(Placement::Bell, def(Some("Bell")).placement());
    assert_eq!(Placement::Chest, def(Some("Chest")).placement());
    assert_eq!(Placement::Key, def(Some("Key")).placement());
    assert_eq!(Placement::Spring, def(Some("Spring")).placement());
    assert_eq!(Placement::Flag, def(Some("Flag")).placement());
    assert_eq!(Placement::Ruby, def(Some("Ruby")).placement());
    assert_eq!(Placement::Nothing, def(Some("Dragon")).placement());
}

#[test]
fn slow_frames_are_reported() {
    assert_eq!(Some(40), slow_frame(20, 40));
    assert_eq!(None, slow_frame(20, 20));
    let mut counter = FpsCounter::new(u128::MAX);
    assert_eq!(None, counter.on_frame());
}

#[test]
fn frames_are_timed_from_the_last_one() {
    let mut counter = FpsCounter::new(30);
    assert_eq!(None, counter.record_frame(20_000_000));
    assert_eq!(Some(31), counter.record_frame(51_500_000));
    assert_eq!(None, counter.record_frame(81_500_000));
    assert_eq!(None, counter.record_frame(1_000));
    assert_eq!(Some(40), counter.record_frame(40_001_000));
}

#[test]
fn tile_ids_run_along_the_sheet() {
    let def = TileDef::from_tile_id(27, 12, None);
    assert_eq!((3, 2), (def.x, def.y));
    assert_eq!(None, def.user_type);
}

#[test]
fn heroes_start_when_the_sign_says_go() {
    let placements = vec![
        ((3, 4), Placement::Coin),
        ((5, 6), Placement::Hero),
        ((1, 1), Placement::Tile(TileType::STONE)),
        ((7, 2), Placement::Hero),
    ];
    assert_eq!(
        vec![(2400, LevelTimer::SpawnHero(5, 6)), (2400, LevelTimer::SpawnHero(7, 2))],
        hero_timers(&placements)
    );
    assert!(hero_timers(&vec![((0, 0), Placement::Nothing)]).is_empty());
}

#[test]
fn the_countdown_runs_red_yellow_green_go() {
    let countdown = PixelImage::new(2, 2, vec![(255, 0, 0), (255, 255, 0), (0, 255, 0), (0, 0, 0)]).unwrap();
    let go = PixelImage::new(1, 1, vec![(255, 255, 255)]).unwrap();
    assert_eq!(
        vec![
            (600, LevelTimer::SpawnBulb(0, 1)),
            (1200, LevelTimer::SpawnBulb(1, 1)),
            (1800, LevelTimer::SpawnBulb(0, 0)),
            (2400, LevelTimer::SpawnFlashBulb(0, 0)),
            (7400, LevelTimer::TurnFlashbulbsYellow),
            (10400, LevelTimer::TurnFlashbulbsRed),
            (12400, LevelTimer::TimeLimitExpired),
        ],
        countdown_timers(&countdown, &go)
    );
}

#[test]
fn a_blank_countdown_still_ends_the_level() {
    let countdown = PixelImage::new(1, 1, vec![(0, 0, 0)]).unwrap();
    let go = PixelImage::new(0, 0, vec![]).unwrap();
    assert_eq!(
        vec![
            (7400, LevelTimer::TurnFlashbulbsYellow),
            (10400, LevelTimer::TurnFlashbulbsRed),
            (12400, LevelTimer::TimeLimitExpired),
        ],
        countdown_timers(&countdown, &go)
    );
}

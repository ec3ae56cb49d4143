use pandamonium::controller::{ButtonPress, Controller, Input, KEY_BACKSPACE, KEY_H, KEY_NUM1, KEY_NUM2, KEY_RETURN, PAD_A, PAD_DPAD_LEFT};
use pandamonium::hero::{invert, PandaType};
use pandamonium::hi_score::{new_hiscore_index, HiScore, NewGame, ScreenEvent, Scores, ShowHighScores, ShowTitleScreen, UpdateHiScores, NOT_PLACED};
use pandamonium::sign::Sign;
use pandamonium::title::Title;

fn table(scores: &[u32]) -> Vec<HiScore> {
    scores.iter().map(|s| HiScore { name: "ABC".to_string(), score: *s }).collect()
}

fn key(key: i32) -> Input {
    Input::KeyDown { key, repeat: false }
}

#[test]
fn a_new_score_goes_above_the_first_score_it_beats() {
    let scores = table(&[100, 80, 60]);
    assert_eq!(1, new_hiscore_index(90, &scores));
    assert_eq!(0, new_hiscore_index(101, &scores));
    assert_eq!(NOT_PLACED, new_hiscore_index(60, &scores));
    assert_eq!(NOT_PLACED, new_hiscore_index(0, &Vec::new()));
}

#[test]
fn an_empty_table_takes_no_score() {
    let screen = Scores::new(500, Vec::new());
    assert_eq!(NOT_PLACED, screen.new_hiscore_index());
    assert!(screen.scores().is_empty());
}

#[test]
fn the_table_keeps_ten_lines() {
    let scores = table(&[100, 90, 80, 70, 60, 50, 40, 30, 20, 10]);
    let screen = Scores::new(55, scores);
    assert_eq!(5, screen.new_hiscore_index());
    let lines: Vec<u32> = screen.scores().iter().map(|h| h.score).collect();
    assert_eq!(vec![100, 90, 80, 70, 60, 55, 50, 40, 30, 20], lines);
    assert_eq!("", screen.scores()[5].name);
}

#[test]
fn a_low_score_leaves_the_table_alone() {
    let screen = Scores::new(5, table(&[100, 90, 80, 70, 60, 50, 40, 30, 20, 10]));
    assert_eq!(NOT_PLACED, screen.new_hiscore_index());
    assert_eq!(10, screen.scores().len());
}

#[test]
fn typing_names_the_new_line() {
    let mut screen = Scores::new(500, table(&[100]));
    assert_eq!(0, screen.new_hiscore_index());
    assert!(screen.on_event(&Input::TextInput { text: "BO".to_string() }).is_empty());
    assert!(screen.on_event(&Input::TextInput { text: "BBY".to_string() }).is_empty());
    assert_eq!("BOBB", screen.scores()[0].name);
    screen.on_event(&key(KEY_BACKSPACE));
    assert_eq!("BOB", screen.scores()[0].name);
    let raised = screen.on_event(&key(KEY_RETURN));
    assert_eq!(
        vec![
            ScreenEvent::UpdateHiScores(UpdateHiScores(vec![
                HiScore { name: "BOB".to_string(), score: 500 },
                HiScore { name: "ABC".to_string(), score: 100 },
            ])),
            ScreenEvent::ShowTitleScreen(ShowTitleScreen()),
        ],
        raised
    );
}

#[test]
fn update_and_trim_edit_the_name() {
    let mut screen = Scores::new(500, table(&[100]));
    screen.update_name(&"ABCDEF".to_string());
    assert_eq!("ABCD", screen.scores()[0].name);
    screen.trim_name();
    screen.trim_name();
    assert_eq!("AB", screen.scores()[0].name);
}

#[test]
fn names_keep_their_first_four_bytes() {
    let mut screen = Scores::new(500, table(&[100]));
    screen.update_name(&"\u{e9}".to_string());
    assert_eq!("\u{e9}", screen.scores()[0].name);
    screen.update_name(&"xyz".to_string());
    assert_eq!("\u{e9}xy", screen.scores()[0].name);
    screen.trim_name();
    assert_eq!("\u{e9}x", screen.scores()[0].name);
}

#[test]
fn without_a_new_line_number_keys_start_a_game() {
    let mut screen = Scores::new(0, table(&[100; 10]));
    assert_eq!(vec![ScreenEvent::NewGame(NewGame(PandaType::GiantPanda))], screen.on_event(&key(KEY_NUM1)));
    assert_eq!(vec![ScreenEvent::NewGame(NewGame(PandaType::RedPanda))], screen.on_event(&key(KEY_NUM2)));
    assert!(screen.on_event(&key(KEY_RETURN)).is_empty());
    assert!(screen.on_event(&Input::TextInput { text: "x".to_string() }).is_empty());
}

#[test]
fn the_title_screen_starts_games_and_shows_scores() {
    let title = Title;
    assert_eq!(Some(ScreenEvent::NewGame(NewGame(PandaType::GiantPanda))), title.on_event(&key(KEY_NUM1)));
    assert_eq!(Some(ScreenEvent::NewGame(NewGame(PandaType::RedPanda))), title.on_event(&key(KEY_NUM2)));
    assert_eq!(Some(ScreenEvent::ShowHighScores(ShowHighScores())), title.on_event(&key(KEY_H)));
    assert_eq!(None, title.on_event(&key(KEY_RETURN)));
    assert_eq!(None, title.on_event(&Input::Other));
}

#[test]
fn controls_follow_keys_and_pad() {
    let left = 1073741904;
    let right = 1073741903;
    let jump = 32;
    let mut controller = Controller::new(left, right, jump);
    assert_eq!(Sign::ZERO, controller.x());
    controller.on_event(&Input::KeyDown { key: left, repeat: false });
    assert_eq!(Sign::NEGATIVE, controller.x());
    controller.on_event(&Input::KeyDown { key: right, repeat: false });
    assert_eq!(Sign::ZERO, controller.x());
    controller.on_event(&Input::KeyUp { key: left, repeat: false });
    assert_eq!(Sign::POSITIVE, controller.x());
    controller.on_event(&Input::KeyUp { key: right, repeat: false });
    controller.on_event(&Input::ButtonDown { button: PAD_DPAD_LEFT });
    assert_eq!(Sign::NEGATIVE, controller.x());
    controller.on_event(&Input::ButtonUp { button: PAD_DPAD_LEFT });
    assert_eq!(Sign::ZERO, controller.x());
}

#[test]
fn pressing_jump_announces_a_button_press() {
    let mut controller = Controller::new(1, 2, 3);
    assert_eq!(vec![ButtonPress(1)], controller.on_event(&Input::KeyDown { key: 3, repeat: false }));
    assert!(controller.jump_held());
    assert!(controller.on_event(&Input::KeyDown { key: 3, repeat: true }).is_empty());
    controller.on_event(&Input::KeyUp { key: 3, repeat: false });
    assert!(!controller.jump_held());
    assert_eq!(vec![ButtonPress(1)], controller.on_event(&Input::ButtonDown { button: PAD_A }));
    let state = controller.fire_new_state();
    assert_eq!(1, state.id);
    assert!(state.jump_held);
    assert_eq!(Sign::ZERO, state.x);
    assert!(controller.on_event(&Input::KeyDown { key: 1, repeat: false }).is_empty());
}

#[test]
fn invert_swaps_pandas() {
    assert_eq!(PandaType::RedPanda, invert(PandaType::GiantPanda));
    assert_eq!(PandaType::GiantPanda, invert(PandaType::RedPanda));
    assert_eq!(-1, Sign::NEGATIVE.unit());
    assert_eq!(1, Sign::POSITIVE.unit());
    assert_eq!(0, Sign::ZERO.unit());
}

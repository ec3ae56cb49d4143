//! The title screen.
use crate::controller::{Input, KEY_H, KEY_NUM1, KEY_NUM2};
use crate::hero::PandaType;
use crate::hi_score::{NewGame, ScreenEvent, ShowHighScores};
use vstd::prelude::*;

verus! {

/// The title screen.
#[derive(Clone, Copy, Debug)]
pub struct Title;

/// What the title screen raises for an input: a new game as the giant
/// panda on `1`, as the red panda on `2`, the high scores on `h`.
pub open spec fn title_event(input: Input) -> Option<ScreenEvent> {
    match input {
        Input::KeyDown { key, .. } => if key == KEY_NUM1 {
            Some(ScreenEvent::NewGame(NewGame(PandaType::GiantPanda)))
        } else if key == KEY_NUM2 {
            Some(ScreenEvent::NewGame(NewGame(PandaType::RedPanda)))
        } else if key == KEY_H {
            Some(ScreenEvent::ShowHighScores(ShowHighScores()))
        } else {
            None
        },
        _ => None,
    }
}

impl Title {
    /// Reacts to the player's input.
    pub fn on_event(&self, input: &Input) -> (r: Option<ScreenEvent>)
        ensures
            r == title_event(*input),
    {
        match input {
            Input::KeyDown { key, .. } => {
                if *key == KEY_NUM1 {
                    Some(ScreenEvent::NewGame(NewGame(PandaType::GiantPanda)))
                } else if *key == KEY_NUM2 {
                    Some(ScreenEvent::NewGame(NewGame(PandaType::RedPanda)))
                } else if *key == KEY_H {
                    Some(ScreenEvent::ShowHighScores(ShowHighScores()))
                } else {
                    None
                }
            },
            _ => None,
        }
    }
}

} // verus!

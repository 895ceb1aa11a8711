//! The main menu.

use vstd::prelude::*;

use crate::keys::{matches_code, pressed, Key, KeyCode};

verus! {

/// The entries of the main menu.
#[derive(Clone, Copy, Debug, PartialEq, Eq, Structural)]
pub enum MenuItem {
    Resume,
    NewGame,
    Help,
    Settings,
    SaveAndQuit,
    Load,
    Quit,
}

impl MenuItem {
    /// The entry that the keys of a tick, or a click of the right button,
    /// ask for. Each entry has the key of its marked letter; the help
    /// answers to the question mark as well, and the game is resumed by
    /// `Esc` and by the right button too. Where keys of several entries are
    /// down at once, the settings come before the help, the help before
    /// loading, then a new game, quitting, resuming, and saving last.
    pub open spec fn spec_from_keys(keys: Seq<Key>, right_clicked: bool) -> Option<MenuItem> {
        if pressed(keys, KeyCode::E) {
            Some(MenuItem::Settings)
        } else if pressed(keys, KeyCode::H) || pressed(keys, KeyCode::QuestionMark) {
            Some(MenuItem::Help)
        } else if pressed(keys, KeyCode::L) {
            Some(MenuItem::Load)
        } else if pressed(keys, KeyCode::N) {
            Some(MenuItem::NewGame)
        } else if pressed(keys, KeyCode::Q) {
            Some(MenuItem::Quit)
        } else if pressed(keys, KeyCode::R) || pressed(keys, KeyCode::Esc) || right_clicked {
            Some(MenuItem::Resume)
        } else if pressed(keys, KeyCode::S) {
            Some(MenuItem::SaveAndQuit)
        } else {
            None
        }
    }

    /// The entry that the keys of a tick, or a click of the right button,
    /// ask for.
    pub fn from_keys(keys: &[Key], right_clicked: bool) -> (item: Option<MenuItem>)
        ensures
            item == MenuItem::spec_from_keys(keys@, right_clicked),
    {
        if matches_code(keys, KeyCode::E) {
            Some(MenuItem::Settings)
        } else if matches_code(keys, KeyCode::H) || matches_code(keys, KeyCode::QuestionMark) {
            Some(MenuItem::Help)
        } else if matches_code(keys, KeyCode::L) {
            Some(MenuItem::Load)
        } else if matches_code(keys, KeyCode::N) {
            Some(MenuItem::NewGame)
        } else if matches_code(keys, KeyCode::Q) {
            Some(MenuItem::Quit)
        } else if matches_code(keys, KeyCode::R) || matches_code(keys, KeyCode::Esc)
            || right_clicked {
            Some(MenuItem::Resume)
        } else if matches_code(keys, KeyCode::S) {
            Some(MenuItem::SaveAndQuit)
        } else {
            None
        }
    }
}

} // verus!

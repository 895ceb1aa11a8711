//! What the player can ask for in each of the game's windows.

pub mod endgame;
pub mod help;
pub mod main_menu;
pub mod sidebar;

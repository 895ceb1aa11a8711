//! The deterministic core of a roguelike: an endless world made of lazily
//! generated chunks, the seeded generator behind it, and the record of a
//! session that lets it be played back and checked.

pub mod audio;
pub mod color;
pub mod engine;
pub mod formula;
pub mod generators;
pub mod graphic;
pub mod item;
pub mod keys;
pub mod level;
pub mod metadata;
pub mod monster;
pub mod player;
pub mod point;
pub mod random;
pub mod replay;
pub mod save;
pub mod snapshot;
pub mod state;
pub mod text;
pub mod ui;
pub mod windows;
pub mod world;

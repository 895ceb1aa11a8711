//! What the simulation sees of the machine it runs on: the pointer, and how
//! text is to be laid out.

use vstd::prelude::*;

use crate::point::Point;

pub mod loop_state;

verus! {

/// The state of the pointer during one tick.
#[derive(Clone, Copy, Debug, PartialEq, Eq, Structural)]
pub struct Mouse {
    /// The tile under the pointer, counted from the top left of the window.
    pub tile_pos: Point,
    /// The pixel under the pointer.
    pub screen_pos: Point,
    /// The left button went down and up during this tick.
    pub left_clicked: bool,
    /// The right button went down and up during this tick.
    pub right_clicked: bool,
    /// The left button is held down.
    pub left_is_down: bool,
    /// The right button is held down.
    pub right_is_down: bool,
}

impl Mouse {
    /// The pointer at rest in the top left corner.
    pub open spec fn at_rest() -> Mouse {
        Mouse {
            tile_pos: Point { x: 0, y: 0 },
            screen_pos: Point { x: 0, y: 0 },
            left_clicked: false,
            right_clicked: false,
            left_is_down: false,
            right_is_down: false,
        }
    }

    /// The pointer at rest in the top left corner.
    pub fn new() -> (mouse: Mouse)
        ensures
            mouse == Mouse::at_rest(),
    {
        Mouse {
            tile_pos: Point { x: 0, y: 0 },
            screen_pos: Point { x: 0, y: 0 },
            left_clicked: false,
            right_clicked: false,
            left_is_down: false,
            right_is_down: false,
        }
    }
}

impl Default for Mouse {
    fn default() -> (mouse: Mouse)
        ensures
            mouse == Mouse::at_rest(),
    {
        Mouse::new()
    }
}

/// Where a piece of text sits in the room it is given.
#[derive(Clone, Copy, Debug, PartialEq, Eq, Structural)]
pub enum TextAlign {
    Left,
    Right,
    Center,
}

/// How a piece of text is to be laid out. Widths and heights are in tiles.
#[derive(Clone, Copy, Debug, PartialEq, Eq, Structural)]
pub struct TextOptions {
    pub align: TextAlign,
    /// Whether a line that does not fit is broken or cut off.
    pub wrap: bool,
    /// The width of the room for the text: no room set aside if zero or less.
    pub width: i32,
    /// The height of the room for the text.
    pub height: i32,
    /// The number of lines to leave out at the start.
    pub skip: i32,
}

impl TextOptions {
    /// One line, from the left, neither wrapped nor skipped.
    pub open spec fn plain() -> TextOptions {
        TextOptions { align: TextAlign::Left, wrap: false, width: 0, height: 1, skip: 0 }
    }

    /// Text that starts at the given position.
    pub fn align_left() -> (options: TextOptions)
        ensures
            options == TextOptions::plain(),
    {
        TextOptions { align: TextAlign::Left, wrap: false, width: 0, height: 1, skip: 0 }
    }

    /// Text that ends at the given position.
    pub fn align_right() -> (options: TextOptions)
        ensures
            options == (TextOptions { align: TextAlign::Right, ..TextOptions::plain() }),
    {
        TextOptions { align: TextAlign::Right, wrap: false, width: 0, height: 1, skip: 0 }
    }

    /// Text in the middle of a room of the given width.
    pub fn align_center(width: i32) -> (options: TextOptions)
        ensures
            options == (TextOptions { align: TextAlign::Center, width, ..TextOptions::plain() }),
    {
        TextOptions { align: TextAlign::Center, wrap: false, width, height: 1, skip: 0 }
    }
}

impl Default for TextOptions {
    fn default() -> (options: TextOptions)
        ensures
            options == TextOptions::plain(),
    {
        TextOptions::align_left()
    }
}

/// Whether everything that was to be drawn found room.
#[derive(Clone, Copy, Debug, PartialEq, Eq, Structural)]
pub enum DrawResult {
    Fit,
    Overflow,
}

/// The measures of the tiles and of the letters.
pub trait TextMetrics {
    /// The width of a tile in pixels.
    fn tile_width_px(&self) -> i32;

    /// The width of a letter in pixels.
    fn text_width_px(&self) -> i32;
}

} // verus!
